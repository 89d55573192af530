use vstd::prelude::*;

use crate::ast::token::Ident;
use crate::id::{FunctionSignatureId, StructId, TypeId};
use crate::ir::memory::MemoryType;

verus! {

/// A semantic type, fully resolved. Nested types (the referent of a
/// reference, the signature of a function) appear as already-interned ids,
/// so structural equality of two `Type` values is plain equality.
#[derive(Clone, Copy, Debug, PartialEq, Eq, Structural, Hash)]
pub enum Type {
    Void,
    Memory(MemoryType),
    Struct(StructId),
    Reference(TypeId),
    Function(FunctionSignatureId),
}

impl Type {
    /// True for the integer memory types.
    pub open spec fn spec_is_integer(&self) -> bool {
        match *self {
            Type::Memory(ty) => ty.spec_is_integer(),
            _ => false,
        }
    }

    pub fn is_integer(&self) -> (r: bool)
        ensures
            r == self.spec_is_integer(),
    {
        match self {
            Type::Memory(ty) => ty.is_integer(),
            _ => false,
        }
    }

    pub fn is_reference(&self) -> (r: bool)
        ensures
            r == (*self is Reference),
    {
        match self {
            Type::Reference(_) => true,
            _ => false,
        }
    }
}

/// A nominal struct type. Field layout is not implemented yet; only the name
/// is recorded.
#[derive(Clone, Debug)]
pub struct Struct {
    pub ident: Ident,
}

/// No type appears twice in the table: structurally equal types always share
/// one id.
pub open spec fn types_distinct(s: Seq<Type>) -> bool {
    forall|i: int, j: int| 0 <= i < j < s.len() ==> s[i] != s[j]
}

/// The ids a type carries point into the type and signature tables of the
/// compilation.
pub open spec fn type_valid(t: Type, n_types: nat, n_sigs: nat) -> bool {
    match t {
        Type::Reference(id) => id.0 < n_types,
        Type::Function(sid) => sid.0 < n_sigs,
        _ => true,
    }
}

/// The table after interning `t`: unchanged when `t` is already present,
/// extended by `t` otherwise.
pub open spec fn interned_types(s: Seq<Type>, t: Type) -> Seq<Type> {
    if s.contains(t) {
        s
    } else {
        s.push(t)
    }
}

/// The id interning `t` hands out: the index of `t` when present, else the
/// next fresh index. With a duplicate-free table the index is unique.
pub open spec fn interned_type_id(s: Seq<Type>, t: Type) -> int {
    if s.contains(t) {
        choose|i: int| 0 <= i < s.len() && s[i] == t
    } else {
        s.len() as int
    }
}

/// The type interning table: maps structural types to dense ids and back,
/// append-only for the lifetime of one compilation. The table is one dense
/// sequence searched linearly: the id space is the index space, so the
/// forward map is indexing and the backward map is the search, and both
/// directions stay provable without reasoning about a hasher.
#[derive(Clone, Debug)]
pub struct Types {
    types: Vec<Type>,
    /// The struct table; nothing fills it yet, since struct declarations are
    /// not part of the grammar.
    pub structs: Vec<Struct>,
}

impl Types {
    /// The interned types, in id order.
    pub closed spec fn spec_types(&self) -> Seq<Type> {
        self.types@
    }

    /// The struct table, for use in specifications.
    pub closed spec fn spec_structs(&self) -> Seq<Struct> {
        self.structs@
    }

    pub open spec fn wf(&self) -> bool {
        types_distinct(self.spec_types())
    }

    pub fn new() -> (r: Self)
        ensures
            r.spec_types() == Seq::<Type>::empty(),
            r.wf(),
    {
        Types { types: Vec::new(), structs: Vec::new() }
    }

    /// The id of `ty`, interning it first if it is new. Structurally equal
    /// types receive the same id, distinct types distinct ids, and
    /// `get_type` maps the id back to `ty`.
    pub fn get_type_id(&mut self, ty: &Type) -> (r: TypeId)
        requires
            old(self).wf(),
        ensures
            final(self).wf(),
            final(self).spec_types() == interned_types(old(self).spec_types(), *ty),
            r.0 == interned_type_id(old(self).spec_types(), *ty),
            r.0 < final(self).spec_types().len(),
            final(self).spec_types()[r.0 as int] == *ty,
            final(self).spec_structs() == old(self).spec_structs(),
    {
        let ghost s = old(self).spec_types();
        let mut i: usize = 0;
        while i < self.types.len()
            invariant
                self.types@ == s,
                self.structs@ == old(self).spec_structs(),
                types_distinct(s),
                i <= s.len(),
                forall|j: int| 0 <= j < i ==> s[j] != *ty,
            decreases s.len() - i,
        {
            if self.types[i] == *ty {
                proof {
                    assert(s[i as int] == *ty);
                    assert(s.contains(*ty));
                    let k = interned_type_id(s, *ty);
                    assert(0 <= k < s.len() && s[k] == *ty);
                    assert(k == i) by {
                        if k < i {
                            assert(s[k] != *ty);
                        }
                        if k > i {
                            assert(s[i as int] != s[k]);
                        }
                    }
                }
                return TypeId(i);
            }
            i += 1;
        }
        proof {
            assert(forall|j: int| 0 <= j < s.len() ==> s[j] != *ty);
            assert(!s.contains(*ty));
        }
        let id = TypeId(self.types.len());
        self.types.push(*ty);
        proof {
            let s1 = self.types@;
            assert(s1 == s.push(*ty));
            assert(types_distinct(s1)) by {
                assert(forall|i: int, j: int|
                    0 <= i < j < s1.len() ==> s1[i] != s1[j]) by {
                    assert(forall|i: int| 0 <= i < s.len() ==> s1[i] == s[i]);
                    assert(s1[s.len() as int] == *ty);
                    assert(forall|i: int| 0 <= i < s.len() ==> s[i] != *ty);
                }
            }
        }
        id
    }

    /// The type interned under `id`.
    pub fn get_type(&self, id: TypeId) -> (r: Type)
        requires
            id.0 < self.spec_types().len(),
        ensures
            r == self.spec_types()[id.0 as int],
    {
        self.types[id.0]
    }
}

impl Default for Types {
    fn default() -> (r: Self)
        ensures
            r.spec_types() == Seq::<Type>::empty(),
            r.wf(),
    {
        Types::new()
    }
}

/// Interning is idempotent: asking twice for the same type changes nothing
/// the second time and hands out the same id, and the id resolves back to
/// the type itself.
pub proof fn lemma_type_intern_idempotent(s: Seq<Type>, t: Type)
    requires
        types_distinct(s),
    ensures
        types_distinct(interned_types(s, t)),
        interned_types(s, t)[interned_type_id(s, t)] == t,
        0 <= interned_type_id(s, t) < interned_types(s, t).len(),
        interned_types(interned_types(s, t), t) == interned_types(s, t),
        interned_type_id(interned_types(s, t), t) == interned_type_id(s, t),
{
    let s1 = interned_types(s, t);
    if s.contains(t) {
        let i = interned_type_id(s, t);
        assert(0 <= i < s.len() && s[i] == t);
    } else {
        assert(s1.last() == t);
        assert(s1.contains(t));
        assert(forall|i: int, j: int| 0 <= i < j < s1.len() ==> s1[i] != s1[j]) by {
            assert(forall|i: int| 0 <= i < s.len() ==> s1[i] == s[i]);
            assert(forall|i: int| 0 <= i < s.len() ==> !(s[i] == t)) by {
                assert(!s.contains(t));
            }
        }
    }
    let i1 = interned_type_id(s1, t);
    let i0 = interned_type_id(s, t);
    assert(s1.contains(t)) by {
        assert(s1[i0] == t);
    }
    assert(0 <= i1 < s1.len() && s1[i1] == t);
    assert(i1 == i0) by {
        assert(types_distinct(s1));
        assert(s1[i1] == t && s1[i0] == t);
    }
}

/// Distinct types receive distinct ids: after interning two structurally
/// different types, in either order, their ids differ and each id resolves
/// to its own type.
pub proof fn lemma_type_intern_distinct(s: Seq<Type>, t1: Type, t2: Type)
    requires
        types_distinct(s),
        t1 != t2,
    ensures
        interned_type_id(interned_types(s, t1), t2) != interned_type_id(s, t1),
        interned_types(interned_types(s, t1), t2)[interned_type_id(s, t1)] == t1,
        interned_types(interned_types(s, t1), t2)[interned_type_id(
            interned_types(s, t1),
            t2,
        )] == t2,
{
    lemma_type_intern_idempotent(s, t1);
    let s1 = interned_types(s, t1);
    let i1 = interned_type_id(s, t1);
    lemma_type_intern_idempotent(s1, t2);
    let s2 = interned_types(s1, t2);
    let i2 = interned_type_id(s1, t2);
    assert(s1[i1] == t1);
    assert(s2[i2] == t2);
    assert(forall|i: int| 0 <= i < s1.len() ==> s2[i] == s1[i]);
    assert(s2[i1] == t1);
}

} // verus!
