use vstd::prelude::*;

use crate::ast;
use crate::ast::token::Ident;
use crate::compiler::declarations::{
    resolved_type, resolved_types_table, Declarations, FunctionDeclaration,
};
use crate::compiler::ty::{interned_type_id, interned_types, type_valid, types_distinct, Type, Types};
use crate::error::{Error, ErrorKind};
use crate::id::{FunctionId, FunctionSignatureId, TypeId};

verus! {

/// The shape of a function: its argument types in order and its return
/// type, all as interned type ids. Interned independently of any function.
#[derive(Clone, Debug, PartialEq, Eq, Hash)]
pub struct FunctionSignature {
    pub arguments: Vec<TypeId>,
    pub return_type: TypeId,
}

/// Two signatures are the same shape when they list the same argument types
/// in the same order and the same return type.
pub open spec fn sig_same(a: FunctionSignature, b: FunctionSignature) -> bool {
    a.arguments@ == b.arguments@ && a.return_type == b.return_type
}

/// No two signatures of the table are the same shape.
pub open spec fn sigs_distinct(s: Seq<FunctionSignature>) -> bool {
    forall|i: int, j: int| 0 <= i < j < s.len() ==> !sig_same(s[i], s[j])
}

/// Whether the table already holds a signature of this shape.
pub open spec fn contains_sig(s: Seq<FunctionSignature>, sig: FunctionSignature) -> bool {
    exists|i: int| 0 <= i < s.len() && sig_same(s[i], sig)
}

/// The table after interning `sig`: unchanged when its shape is present,
/// extended by `sig` otherwise.
pub open spec fn interned_sigs(
    s: Seq<FunctionSignature>,
    sig: FunctionSignature,
) -> Seq<FunctionSignature> {
    if contains_sig(s, sig) {
        s
    } else {
        s.push(sig)
    }
}

/// The id interning `sig` hands out: the index of the signature of the same
/// shape when present, else the next fresh index.
pub open spec fn interned_sig_id(s: Seq<FunctionSignature>, sig: FunctionSignature) -> int {
    if contains_sig(s, sig) {
        choose|i: int| 0 <= i < s.len() && sig_same(s[i], sig)
    } else {
        s.len() as int
    }
}

/// The function-signature interning table: shapes to dense ids and back,
/// append-only for one compilation, laid out like the type table: one dense
/// sequence whose index space is the id space.
#[derive(Clone, Debug)]
pub struct FunctionSignatures {
    signatures: Vec<FunctionSignature>,
}

impl FunctionSignatures {
    /// The interned signatures, in id order.
    pub closed spec fn spec_signatures(&self) -> Seq<FunctionSignature> {
        self.signatures@
    }

    pub open spec fn wf(&self) -> bool {
        sigs_distinct(self.spec_signatures())
    }

    pub fn new() -> (r: Self)
        ensures
            r.spec_signatures() == Seq::<FunctionSignature>::empty(),
            r.wf(),
    {
        FunctionSignatures { signatures: Vec::new() }
    }

    /// The id of the signature's shape, interning it first if it is new.
    /// Signatures of equal shape receive the same id, distinct shapes
    /// distinct ids, and `get_signature` maps the id back to the shape.
    pub fn get_id(&mut self, signature: FunctionSignature) -> (r: FunctionSignatureId)
        requires
            old(self).wf(),
        ensures
            final(self).wf(),
            final(self).spec_signatures() == interned_sigs(old(self).spec_signatures(), signature),
            r.0 == interned_sig_id(old(self).spec_signatures(), signature),
            r.0 < final(self).spec_signatures().len(),
            sig_same(final(self).spec_signatures()[r.0 as int], signature),
    {
        let ghost s = old(self).spec_signatures();
        let mut i: usize = 0;
        while i < self.signatures.len()
            invariant
                self.signatures@ == s,
                sigs_distinct(s),
                i <= s.len(),
                forall|j: int| 0 <= j < i ==> !sig_same(s[j], signature),
            decreases s.len() - i,
        {
            let candidate = &self.signatures[i];
            let same = candidate.return_type == signature.return_type && type_ids_eq(
                &candidate.arguments,
                &signature.arguments,
            );
            if same {
                proof {
                    assert(sig_same(s[i as int], signature));
                    assert(contains_sig(s, signature));
                    let k = interned_sig_id(s, signature);
                    assert(0 <= k < s.len() && sig_same(s[k], signature));
                    assert(k == i) by {
                        if k < i {
                            assert(!sig_same(s[k], signature));
                        }
                        if k > i {
                            assert(!sig_same(s[i as int], s[k]));
                            assert(sig_same(s[i as int], s[k]));
                        }
                    }
                }
                return FunctionSignatureId(i);
            }
            i += 1;
        }
        proof {
            assert(forall|j: int| 0 <= j < s.len() ==> !sig_same(s[j], signature));
            assert(!contains_sig(s, signature));
        }
        let id = FunctionSignatureId(self.signatures.len());
        self.signatures.push(signature);
        proof {
            let s1 = self.signatures@;
            assert(sigs_distinct(s1)) by {
                assert(forall|i: int| 0 <= i < s.len() ==> s1[i] == s[i]);
                assert(sig_same(s1[s.len() as int], signature));
                assert(forall|i: int, j: int|
                    0 <= i < j < s1.len() && j < s.len() ==> !sig_same(s1[i], s1[j]));
                assert(forall|i: int|
                    0 <= i < s.len() ==> !sig_same(#[trigger] s1[i], s1[s.len() as int])) by {
                    assert(forall|i: int| 0 <= i < s.len() ==> !sig_same(#[trigger] s[i], signature));
                }
            }
            assert(sig_same(s1[id.0 as int], signature));
        }
        id
    }

    /// The signature interned under `id`.
    pub fn get_signature(&self, id: FunctionSignatureId) -> (r: &FunctionSignature)
        requires
            id.0 < self.spec_signatures().len(),
        ensures
            *r == self.spec_signatures()[id.0 as int],
    {
        &self.signatures[id.0]
    }

    /// How many shapes have been interned.
    pub fn len(&self) -> (r: usize)
        ensures
            r == self.spec_signatures().len(),
    {
        self.signatures.len()
    }
}

/// Compares two lists of type ids element by element.
pub(crate) fn type_ids_eq(a: &Vec<TypeId>, b: &Vec<TypeId>) -> (r: bool)
    ensures
        r == (a@ == b@),
{
    if a.len() != b.len() {
        proof {
            assert(a@.len() != b@.len());
        }
        return false;
    }
    let mut i: usize = 0;
    while i < a.len()
        invariant
            a@.len() == b@.len(),
            i <= a@.len(),
            forall|j: int| 0 <= j < i ==> a@[j] == b@[j],
        decreases a@.len() - i,
    {
        if a[i].0 != b[i].0 {
            proof {
                assert(a@[i as int] != b@[i as int]);
            }
            return false;
        }
        i += 1;
    }
    proof {
        assert(a@ =~= b@);
    }
    true
}

/// Interning a signature is idempotent, the id resolves back to the same
/// shape, and distinct shapes receive distinct ids.
pub proof fn lemma_sig_intern_idempotent(s: Seq<FunctionSignature>, sig: FunctionSignature)
    requires
        sigs_distinct(s),
    ensures
        sigs_distinct(interned_sigs(s, sig)),
        sig_same(interned_sigs(s, sig)[interned_sig_id(s, sig)], sig),
        0 <= interned_sig_id(s, sig) < interned_sigs(s, sig).len(),
        interned_sigs(interned_sigs(s, sig), sig) == interned_sigs(s, sig),
        interned_sig_id(interned_sigs(s, sig), sig) == interned_sig_id(s, sig),
{
    let s1 = interned_sigs(s, sig);
    if contains_sig(s, sig) {
        let i = interned_sig_id(s, sig);
        assert(0 <= i < s.len() && sig_same(s[i], sig));
    } else {
        assert(sig_same(s1[s.len() as int], sig));
        assert(sigs_distinct(s1)) by {
            assert(forall|i: int| 0 <= i < s.len() ==> s1[i] == s[i]);
            assert(forall|i: int| 0 <= i < s.len() ==> !sig_same(#[trigger] s[i], sig));
        }
        assert(contains_sig(s1, sig));
    }
    let i1 = interned_sig_id(s1, sig);
    let i0 = interned_sig_id(s, sig);
    assert(contains_sig(s1, sig)) by {
        assert(sig_same(s1[i0], sig));
    }
    assert(0 <= i1 < s1.len() && sig_same(s1[i1], sig));
    assert(i1 == i0) by {
        if i1 < i0 {
            assert(!sig_same(s1[i1], s1[i0]));
            assert(sig_same(s1[i1], s1[i0]));
        }
        if i0 < i1 {
            assert(!sig_same(s1[i0], s1[i1]));
            assert(sig_same(s1[i0], s1[i1]));
        }
    }
}

/// Every type the table holds and every signature only mention ids that
/// point back into the tables; both tables are duplicate-free.
pub open spec fn tables_wf(types: Seq<Type>, sigs: Seq<FunctionSignature>) -> bool {
    &&& types_distinct(types)
    &&& sigs_distinct(sigs)
    &&& forall|i: int|
        0 <= i < types.len() ==> type_valid(#[trigger] types[i], types.len(), sigs.len())
    &&& forall|i: int, j: int|
        0 <= i < sigs.len() && 0 <= j < sigs[i].arguments@.len() ==> (#[trigger] sigs[i]
            .arguments@[j]).0 < types.len()
    &&& forall|i: int| 0 <= i < sigs.len() ==> (#[trigger] sigs[i]).return_type.0 < types.len()
}


/// A type stays valid when the tables only grow.
pub proof fn lemma_type_valid_grow(t: Type, n1: nat, n2: nat, s1: nat, s2: nat)
    requires
        type_valid(t, n1, s1),
        n1 <= n2,
        s1 <= s2,
    ensures
        type_valid(t, n2, s2),
{
}

/// Interning a valid type preserves the consistency of the tables and only
/// appends.
pub proof fn lemma_tables_wf_intern(types: Seq<Type>, sigs: Seq<FunctionSignature>, t: Type)
    requires
        tables_wf(types, sigs),
        type_valid(t, types.len(), sigs.len()),
    ensures
        tables_wf(interned_types(types, t), sigs),
        types.is_prefix_of(interned_types(types, t)),
{
    let t1 = interned_types(types, t);
    crate::compiler::ty::lemma_type_intern_idempotent(types, t);
    assert(types.is_prefix_of(t1)) by {
        assert(t1.take(types.len() as int) =~= types);
    }
    assert forall|i: int| 0 <= i < t1.len() implies type_valid(
        #[trigger] t1[i],
        t1.len(),
        sigs.len(),
    ) by {
        if i < types.len() {
            assert(t1[i] == types[i]);
            lemma_type_valid_grow(types[i], types.len(), t1.len(), sigs.len(), sigs.len());
        } else {
            assert(t1[i] == t);
            lemma_type_valid_grow(t, types.len(), t1.len(), sigs.len(), sigs.len());
        }
    }
}

/// Resolving a source-level type preserves the consistency of the tables,
/// only appends, and hands back a valid non-nominal, non-function type.
pub proof fn lemma_resolved_table_wf(types: Seq<Type>, sigs: Seq<FunctionSignature>, t: ast::Type)
    requires
        tables_wf(types, sigs),
    ensures
        tables_wf(resolved_types_table(types, t), sigs),
        types.is_prefix_of(resolved_types_table(types, t)),
        match resolved_type(types, t) {
            Ok(rt) => type_valid(
                rt,
                resolved_types_table(types, t).len(),
                sigs.len(),
            ) && !(rt is Function) && !(rt is Struct),
            Err(_) => true,
        },
    decreases t,
{
    match t {
        ast::Type::Reference(inner) => {
            lemma_resolved_table_wf(types, sigs, *inner.ty);
            let table = resolved_types_table(types, *inner.ty);
            match resolved_type(types, *inner.ty) {
                Ok(resolved) => {
                    lemma_tables_wf_intern(table, sigs, resolved);
                    crate::compiler::ty::lemma_type_intern_idempotent(table, resolved);
                    lemma_prefix_trans(
                        types,
                        table,
                        interned_types(table, resolved),
                    );
                },
                Err(_) => {},
            }
        },
        _ => {
            assert(types.is_prefix_of(types)) by {
                assert(types.take(types.len() as int) =~= types);
            }
        },
    }
}


/// Distinct signature shapes receive distinct ids: after interning two
/// different shapes, in either order, their ids differ and each id
/// resolves to its own shape.
pub proof fn lemma_sig_intern_distinct(
    s: Seq<FunctionSignature>,
    sig1: FunctionSignature,
    sig2: FunctionSignature,
)
    requires
        sigs_distinct(s),
        !sig_same(sig1, sig2),
    ensures
        interned_sig_id(interned_sigs(s, sig1), sig2) != interned_sig_id(s, sig1),
        sig_same(
            interned_sigs(interned_sigs(s, sig1), sig2)[interned_sig_id(s, sig1)],
            sig1,
        ),
        sig_same(
            interned_sigs(interned_sigs(s, sig1), sig2)[interned_sig_id(
                interned_sigs(s, sig1),
                sig2,
            )],
            sig2,
        ),
{
    lemma_sig_intern_idempotent(s, sig1);
    let s1 = interned_sigs(s, sig1);
    let i1 = interned_sig_id(s, sig1);
    lemma_sig_intern_idempotent(s1, sig2);
    let s2 = interned_sigs(s1, sig2);
    let i2 = interned_sig_id(s1, sig2);
    assert(sig_same(s1[i1], sig1));
    assert(sig_same(s2[i2], sig2));
    assert(forall|i: int| 0 <= i < s1.len() ==> s2[i] == s1[i]);
    assert(sig_same(s2[i1], sig1));
    assert(i1 != i2) by {
        if i1 == i2 {
            assert(sig_same(s2[i1], sig2));
            assert(sig_same(sig1, sig2)) by {
                assert(s2[i1].arguments@ == sig1.arguments@ && s2[i1].arguments@
                    == sig2.arguments@);
            }
        }
    }
}

/// Interning a valid signature preserves the consistency of the tables.
pub proof fn lemma_tables_wf_intern_sig(
    types: Seq<Type>,
    sigs: Seq<FunctionSignature>,
    sig: FunctionSignature,
)
    requires
        tables_wf(types, sigs),
        sig.return_type.0 < types.len(),
        forall|j: int|
            0 <= j < sig.arguments@.len() ==> (#[trigger] sig.arguments@[j]).0 < types.len(),
    ensures
        tables_wf(types, interned_sigs(sigs, sig)),
{
    let s1 = interned_sigs(sigs, sig);
    lemma_sig_intern_idempotent(sigs, sig);
    assert forall|i: int| 0 <= i < types.len() implies type_valid(
        #[trigger] types[i],
        types.len(),
        s1.len(),
    ) by {
        lemma_type_valid_grow(types[i], types.len(), types.len(), sigs.len(), s1.len());
    }
    if !contains_sig(sigs, sig) {
        assert(forall|i: int| 0 <= i < sigs.len() ==> s1[i] == sigs[i]);
        assert(s1[sigs.len() as int] == sig);
    }
}


/// Whether a source-level type can be resolved at all: every type but a
/// nominal (path) type can, references by their referent.
pub open spec fn type_resolvable(t: ast::Type) -> bool
    decreases t,
{
    match t {
        ast::Type::Path(_) => false,
        ast::Type::Reference(inner) => type_resolvable(*inner.ty),
        _ => true,
    }
}

/// Resolution succeeds exactly on the resolvable types, whatever the
/// table.
pub proof fn lemma_resolvable_iff(types: Seq<Type>, t: ast::Type)
    ensures
        (resolved_type(types, t) is Ok) <==> type_resolvable(t),
    decreases t,
{
    match t {
        ast::Type::Reference(inner) => {
            lemma_resolvable_iff(types, *inner.ty);
        },
        _ => {},
    }
}

/// Whether every type a function declaration mentions can be resolved:
/// each argument's type and the declared return type, if any.
pub open spec fn function_types_resolvable(f: ast::FunctionDeclaration) -> bool {
    &&& forall|i: int|
        0 <= i < f.args.spec_items().len() ==> type_resolvable(
            (#[trigger] f.args.spec_items()[i]).ty.ty,
        )
    &&& match f.return_type {
        Some(rt) => type_resolvable(rt.ty),
        None => true,
    }
}

/// The interning table after resolving the declared types of the first `i`
/// arguments, in order.
pub open spec fn argument_types_table(
    types: Seq<Type>,
    args: Seq<ast::FunctionArgument>,
    i: int,
) -> Seq<Type>
    decreases i,
{
    if i <= 0 {
        types
    } else {
        let table = argument_types_table(types, args, i - 1);
        match resolved_type(table, args[i - 1].ty.ty) {
            Ok(rt) => interned_types(resolved_types_table(table, args[i - 1].ty.ty), rt),
            Err(_) => resolved_types_table(table, args[i - 1].ty.ty),
        }
    }
}

/// The id argument `i`'s declared type interns to, against the table the
/// earlier arguments left behind.
pub open spec fn argument_type_id(
    types: Seq<Type>,
    args: Seq<ast::FunctionArgument>,
    i: int,
) -> TypeId {
    let table = argument_types_table(types, args, i);
    match resolved_type(table, args[i].ty.ty) {
        Ok(rt) => TypeId(
            interned_type_id(resolved_types_table(table, args[i].ty.ty), rt) as usize,
        ),
        Err(_) => TypeId(0),
    }
}

/// One resolved function argument: its name and the id of its type.
#[derive(Clone, Debug)]
pub struct FunctionArgument {
    pub ident: Ident,
    pub ty: TypeId,
}

impl FunctionArgument {
    /// Resolves one declared argument through the type interner.
    pub fn from_ast(
        declarations: &Declarations,
        types: &mut Types,
        ast: &ast::FunctionArgument,
    ) -> (r: Result<Self, Error>)
        requires
            old(types).wf(),
        ensures
            final(types).wf(),
            final(types).spec_structs() == old(types).spec_structs(),
            old(types).spec_types().is_prefix_of(final(types).spec_types()),
            forall|sigs: Seq<FunctionSignature>|
                tables_wf(old(types).spec_types(), sigs) ==> #[trigger] tables_wf(
                    final(types).spec_types(),
                    sigs,
                ),
            match r {
                Ok(argument) => {
                    &&& argument.ident@ == ast.ident@
                    &&& argument.ty.0 < final(types).spec_types().len()
                    &&& match resolved_type(old(types).spec_types(), ast.ty.ty) {
                        Ok(t) => {
                            &&& final(types).spec_types()[argument.ty.0 as int] == t
                            &&& final(types).spec_types() == interned_types(
                                resolved_types_table(old(types).spec_types(), ast.ty.ty),
                                t,
                            )
                            &&& argument.ty == (TypeId(
                                interned_type_id(
                                    resolved_types_table(old(types).spec_types(), ast.ty.ty),
                                    t,
                                ) as usize,
                            ))
                        },
                        Err(_) => false,
                    }
                },
                Err(e) => resolved_type(old(types).spec_types(), ast.ty.ty) == Err::<
                    Type,
                    ErrorKind,
                >(e.spec_kind()),
            },
    {
        proof {
            lemma_resolved_table_prefix(old(types).spec_types(), ast.ty.ty);
        }
        let ty = match declarations.resolve_type_id(types, &ast.ty.ty) {
            Ok(ty) => ty,
            Err(e) => {
                proof {
                    assert forall|sigs: Seq<FunctionSignature>|
                        tables_wf(old(types).spec_types(), sigs) implies #[trigger] tables_wf(
                        types.spec_types(),
                        sigs,
                    ) by {
                        lemma_resolved_table_wf(old(types).spec_types(), sigs, ast.ty.ty);
                    }
                }
                return Err(e);
            },
        };
        proof {
            assert forall|sigs: Seq<FunctionSignature>|
                tables_wf(old(types).spec_types(), sigs) implies #[trigger] tables_wf(
                types.spec_types(),
                sigs,
            ) by {
                lemma_resolved_table_wf(old(types).spec_types(), sigs, ast.ty.ty);
                match resolved_type(old(types).spec_types(), ast.ty.ty) {
                    Ok(rt) => {
                        lemma_tables_wf_intern(
                            resolved_types_table(old(types).spec_types(), ast.ty.ty),
                            sigs,
                            rt,
                        );
                    },
                    Err(_) => {},
                }
            }
        }
        Ok(FunctionArgument { ident: ast.ident.clone(), ty })
    }
}

/// Resolution of a source-level type only ever appends to the interning
/// table.
pub proof fn lemma_resolved_table_prefix(types: Seq<Type>, t: ast::Type)
    ensures
        types.is_prefix_of(resolved_types_table(types, t)),
        types.is_prefix_of(
            interned_types(
                resolved_types_table(types, t),
                match resolved_type(types, t) {
                    Ok(resolved) => resolved,
                    Err(_) => Type::Void,
                },
            ),
        ),
    decreases t,
{
    match t {
        ast::Type::Reference(inner) => {
            lemma_resolved_table_prefix(types, *inner.ty);
            let table = resolved_types_table(types, *inner.ty);
            match resolved_type(types, *inner.ty) {
                Ok(resolved) => {
                    assert(table.is_prefix_of(interned_types(table, resolved)));
                },
                Err(_) => {},
            }
        },
        _ => {},
    }
}

/// A semantic function record: resolved arguments, return type, and the id
/// of the interned signature. Built once and immutable afterward.
#[derive(Clone, Debug)]
pub struct Function {
    pub arguments: Vec<FunctionArgument>,
    pub return_type: TypeId,
    pub signature: FunctionSignatureId,
}

impl Function {
    /// The declared shape of the record is consistent with the tables it
    /// was built against.
    pub open spec fn wf(&self, types: Seq<Type>, sigs: Seq<FunctionSignature>) -> bool {
        &&& self.return_type.0 < types.len()
        &&& self.signature.0 < sigs.len()
        &&& forall|i: int|
            0 <= i < self.arguments@.len() ==> (#[trigger] self.arguments@[i]).ty.0 < types.len()
        &&& sigs[self.signature.0 as int].arguments@.len() == self.arguments@.len()
        &&& forall|i: int|
            0 <= i < self.arguments@.len() ==> sigs[self.signature.0 as int].arguments@[i] == (
            #[trigger] self.arguments@[i]).ty
        &&& sigs[self.signature.0 as int].return_type == self.return_type
    }

    /// Resolves a declared function: every argument type and the return
    /// type (void when absent) through the type interner, then the
    /// resulting signature through the signature interner.
    pub fn from_ast(
        declarations: &Declarations,
        types: &mut Types,
        signatures: &mut FunctionSignatures,
        ast: &ast::FunctionDeclaration,
    ) -> (r: Result<Self, Error>)
        requires
            old(types).wf(),
            old(signatures).wf(),
        ensures
            final(types).wf(),
            final(signatures).wf(),
            final(types).spec_structs() == old(types).spec_structs(),
            old(types).spec_types().is_prefix_of(final(types).spec_types()),
            old(signatures).spec_signatures().is_prefix_of(final(signatures).spec_signatures()),
            tables_wf(old(types).spec_types(), old(signatures).spec_signatures()) ==> tables_wf(
                final(types).spec_types(),
                final(signatures).spec_signatures(),
            ),
            (r is Ok) == function_types_resolvable(*ast),
            r is Ok ==> argument_types_table(
                old(types).spec_types(),
                ast.args.spec_items(),
                ast.args.spec_items().len() as int,
            ).is_prefix_of(final(types).spec_types()),
            match r {
                Ok(function) => {
                    &&& function.wf(final(types).spec_types(), final(signatures).spec_signatures())
                    &&& function.arguments@.len() == ast.args.spec_items().len()
                    &&& forall|i: int|
                        0 <= i < function.arguments@.len() ==> (#[trigger] function.arguments@[i])
                            .ident@ == ast.args.spec_items()[i].ident@
                    &&& forall|i: int|
                        0 <= i < function.arguments@.len() ==> (#[trigger] function.arguments@[i])
                            .ty == argument_type_id(
                            old(types).spec_types(),
                            ast.args.spec_items(),
                            i,
                        )
                    &&& forall|i: int|
                        0 <= i < function.arguments@.len() ==> match resolved_type(
                            argument_types_table(
                                old(types).spec_types(),
                                ast.args.spec_items(),
                                i,
                            ),
                            ast.args.spec_items()[i].ty.ty,
                        ) {
                            Ok(rtv) => final(types).spec_types()[(#[trigger] function
                                .arguments@[i]).ty.0 as int] == rtv,
                            Err(_) => false,
                        }
                    &&& match ast.return_type {
                        Some(rt) => match resolved_type(
                            argument_types_table(
                                old(types).spec_types(),
                                ast.args.spec_items(),
                                ast.args.spec_items().len() as int,
                            ),
                            rt.ty,
                        ) {
                            Ok(rtv) => final(types).spec_types()[function.return_type.0 as int]
                                == rtv,
                            Err(_) => false,
                        },
                        None => final(types).spec_types()[function.return_type.0 as int] == Type::Void,
                    }
                },
                Err(e) => e.spec_kind() == ErrorKind::UnsupportedConstruct,
            },
    {
        let args = ast.args.iter();
        let mut arguments: Vec<FunctionArgument> = Vec::new();
        let mut i: usize = 0;
        while i < args.len()
            invariant
                args@ == ast.args.spec_items(),
                i <= args@.len(),
                types.wf(),
                types.spec_structs() == old(types).spec_structs(),
                old(types).spec_types().is_prefix_of(types.spec_types()),
                *signatures == *old(signatures),
                signatures.wf(),
                old(signatures).spec_signatures().is_prefix_of(signatures.spec_signatures()),
                tables_wf(old(types).spec_types(), old(signatures).spec_signatures())
                    ==> tables_wf(types.spec_types(), signatures.spec_signatures()),
                arguments@.len() == i,
                forall|j: int|
                    0 <= j < i ==> (#[trigger] arguments@[j]).ident@ == args@[j].ident@,
                forall|j: int|
                    0 <= j < i ==> (#[trigger] arguments@[j]).ty.0 < types.spec_types().len(),
                types.spec_types() == argument_types_table(
                    old(types).spec_types(),
                    args@,
                    i as int,
                ),
                forall|j: int|
                    0 <= j < i ==> (#[trigger] arguments@[j]).ty == argument_type_id(
                        old(types).spec_types(),
                        args@,
                        j,
                    ),
                forall|j: int|
                    0 <= j < i ==> match resolved_type(
                        argument_types_table(old(types).spec_types(), args@, j),
                        args@[j].ty.ty,
                    ) {
                        Ok(rtv) => types.spec_types()[(#[trigger] arguments@[j]).ty.0 as int]
                            == rtv,
                        Err(_) => false,
                    },
                forall|j: int| 0 <= j < i ==> type_resolvable((#[trigger] args@[j]).ty.ty),
            decreases args@.len() - i,
        {
            let ghost table_before = types.spec_types();
            let argument = match FunctionArgument::from_ast(declarations, types, &args[i]) {
                Ok(argument) => argument,
                Err(e) => {
                    proof {
                        lemma_resolved_errors_unsupported(table_before, args@[i as int].ty.ty);
                        lemma_prefix_trans(
                            old(types).spec_types(),
                            table_before,
                            types.spec_types(),
                        );
                        lemma_resolvable_iff(table_before, args@[i as int].ty.ty);
                    }
                    return Err(e);
                },
            };
            proof {
                lemma_prefix_trans(old(types).spec_types(), table_before, types.spec_types());
                assert(forall|j: int|
                    0 <= j < arguments@.len() ==> (#[trigger] arguments@[j]).ty.0
                        < types.spec_types().len());
                lemma_resolvable_iff(table_before, args@[i as int].ty.ty);
                assert(table_before.is_prefix_of(types.spec_types()));
                assert(forall|j: int|
                    0 <= j < table_before.len() ==> types.spec_types()[j] == table_before.take(
                        table_before.len() as int,
                    )[j]);
                assert(types.spec_types() == argument_types_table(
                    old(types).spec_types(),
                    args@,
                    i + 1,
                ));
            }
            arguments.push(argument);
            i += 1;
        }
        let ghost table_mid = types.spec_types();
        let return_type = match &ast.return_type {
            Some(return_type) => {
                match declarations.resolve_type_id(types, &return_type.ty) {
                    Ok(ty) => ty,
                    Err(e) => {
                        proof {
                            lemma_resolved_errors_unsupported(table_mid, return_type.ty);
                            lemma_resolvable_iff(table_mid, return_type.ty);
                            lemma_resolved_table_prefix(table_mid, return_type.ty);
                            lemma_prefix_trans(
                                old(types).spec_types(),
                                table_mid,
                                types.spec_types(),
                            );
                            if tables_wf(table_mid, signatures.spec_signatures()) {
                                lemma_resolved_table_wf(
                                    table_mid,
                                    signatures.spec_signatures(),
                                    return_type.ty,
                                );
                            }
                        }
                        return Err(e);
                    },
                }
            },
            None => types.get_type_id(&Type::Void),
        };
        proof {
            match &ast.return_type {
                Some(rt) => {
                    lemma_resolvable_iff(table_mid, rt.ty);
                    lemma_resolved_table_prefix(table_mid, rt.ty);
                    if tables_wf(table_mid, signatures.spec_signatures()) {
                        lemma_resolved_table_wf(table_mid, signatures.spec_signatures(), rt.ty);
                        match resolved_type(table_mid, rt.ty) {
                            Ok(rt2) => {
                                lemma_tables_wf_intern(
                                    resolved_types_table(table_mid, rt.ty),
                                    signatures.spec_signatures(),
                                    rt2,
                                );
                            },
                            Err(_) => {},
                        }
                    }
                },
                None => {
                    assert(table_mid.is_prefix_of(types.spec_types())) by {
                        assert(types.spec_types().take(table_mid.len() as int) =~= table_mid);
                    }
                    if tables_wf(table_mid, signatures.spec_signatures()) {
                        lemma_tables_wf_intern(table_mid, signatures.spec_signatures(), Type::Void);
                    }
                },
            }
            lemma_prefix_trans(old(types).spec_types(), table_mid, types.spec_types());
            assert(forall|j: int|
                0 <= j < arguments@.len() ==> (#[trigger] arguments@[j]).ty.0
                    < types.spec_types().len());
        }
        let mut argument_types: Vec<TypeId> = Vec::new();
        let mut j: usize = 0;
        while j < arguments.len()
            invariant
                j <= arguments@.len(),
                argument_types@.len() == j,
                forall|k: int| 0 <= k < j ==> argument_types@[k] == arguments@[k].ty,
            decreases arguments@.len() - j,
        {
            argument_types.push(arguments[j].ty);
            j += 1;
        }
        let signature = FunctionSignature { arguments: argument_types, return_type };
        let ghost sigs_before = signatures.spec_signatures();
        let ghost table_end = types.spec_types();
        proof {
            if tables_wf(table_end, sigs_before) {
                lemma_tables_wf_intern_sig(table_end, sigs_before, signature);
            }
        }
        let signature_id = signatures.get_id(signature);
        Ok(Function { arguments, return_type, signature: signature_id })
    }
}

/// Prefix-of composes along a chain of table extensions.
pub proof fn lemma_prefix_trans<T>(a: Seq<T>, b: Seq<T>, c: Seq<T>)
    requires
        a.is_prefix_of(b),
        b.is_prefix_of(c),
    ensures
        a.is_prefix_of(c),
{
    assert(forall|i: int| 0 <= i < a.len() ==> a[i] == b.take(a.len() as int)[i]);
    assert(forall|i: int| 0 <= i < b.len() ==> b[i] == c.take(b.len() as int)[i]);
    assert(a =~= c.take(a.len() as int));
}

/// A function record stays consistent when the tables it was checked
/// against only grow.
pub proof fn lemma_function_wf_prefix(
    f: Function,
    t1: Seq<Type>,
    t2: Seq<Type>,
    s1: Seq<FunctionSignature>,
    s2: Seq<FunctionSignature>,
)
    requires
        f.wf(t1, s1),
        t1.is_prefix_of(t2),
        s1.is_prefix_of(s2),
    ensures
        f.wf(t2, s2),
{
    assert(forall|i: int| 0 <= i < s1.len() ==> s2.take(s1.len() as int)[i] == s1[i]);
    assert(s2[f.signature.0 as int] == s1[f.signature.0 as int]);
}

/// The only way type resolution fails is an unsupported nominal type.
pub proof fn lemma_resolved_errors_unsupported(types: Seq<Type>, t: ast::Type)
    ensures
        match resolved_type(types, t) {
            Ok(_) => true,
            Err(e) => e == ErrorKind::UnsupportedConstruct,
        },
    decreases t,
{
    match t {
        ast::Type::Reference(inner) => {
            lemma_resolved_errors_unsupported(types, *inner.ty);
        },
        _ => {},
    }
}


/// One semantic record was built from one declaration against some staged
/// table `t`: the record's argument and return ids are the ones the staged
/// interning hands out, and the table the build left behind maps them back
/// to the declared types' resolutions. `final_types` is any later state of
/// the append-only table.
pub open spec fn function_built_from(
    record: Function,
    f: ast::FunctionDeclaration,
    t: Seq<Type>,
    final_types: Seq<Type>,
) -> bool {
    &&& t.is_prefix_of(final_types)
    &&& argument_types_table(
        t,
        f.args.spec_items(),
        f.args.spec_items().len() as int,
    ).is_prefix_of(final_types)
    &&& record.arguments@.len() == f.args.spec_items().len()
    &&& forall|j: int|
        0 <= j < record.arguments@.len() ==> (#[trigger] record.arguments@[j]).ident@
            == f.args.spec_items()[j].ident@
    &&& forall|j: int|
        0 <= j < record.arguments@.len() ==> (#[trigger] record.arguments@[j]).ty
            == argument_type_id(t, f.args.spec_items(), j)
    &&& forall|j: int|
        0 <= j < record.arguments@.len() ==> match resolved_type(
            argument_types_table(t, f.args.spec_items(), j),
            f.args.spec_items()[j].ty.ty,
        ) {
            Ok(v) => (#[trigger] record.arguments@[j]).ty.0 < final_types.len()
                && final_types[record.arguments@[j].ty.0 as int] == v,
            Err(_) => false,
        }
    &&& record.return_type.0 < final_types.len()
    &&& match f.return_type {
        Some(rt) => match resolved_type(
            argument_types_table(t, f.args.spec_items(), f.args.spec_items().len() as int),
            rt.ty,
        ) {
            Ok(v) => final_types[record.return_type.0 as int] == v,
            Err(_) => false,
        },
        None => final_types[record.return_type.0 as int] == Type::Void,
    }
}


/// A record was built from a declaration against some staged table that
/// the append-only build left inside the final one.
pub open spec fn function_built(
    record: Function,
    f: ast::FunctionDeclaration,
    final_types: Seq<Type>,
) -> bool {
    exists|t: Seq<Type>| function_built_from(record, f, t, final_types)
}

/// A built-from tie survives any later growth of the append-only table.
pub proof fn lemma_function_built_from_grow(
    record: Function,
    f: ast::FunctionDeclaration,
    t: Seq<Type>,
    t1: Seq<Type>,
    t2: Seq<Type>,
)
    requires
        function_built_from(record, f, t, t1),
        t1.is_prefix_of(t2),
    ensures
        function_built_from(record, f, t, t2),
{
    lemma_prefix_trans(t, t1, t2);
    lemma_prefix_trans(
        argument_types_table(t, f.args.spec_items(), f.args.spec_items().len() as int),
        t1,
        t2,
    );
    assert(forall|k: int| 0 <= k < t1.len() ==> t2[k] == t2.take(t1.len() as int)[k]);
    assert(forall|k: int| 0 <= k < t1.len() ==> t2[k] == t1[k]);
}

/// The semantic function table, keyed by `FunctionId`: record `i` belongs
/// to the declaration that received function id `i`.
#[derive(Clone, Debug)]
pub struct Functions {
    pub functions: Vec<Function>,
}

impl Functions {
    pub open spec fn wf(&self, types: Seq<Type>, sigs: Seq<FunctionSignature>) -> bool {
        forall|i: int|
            0 <= i < self.functions@.len() ==> (#[trigger] self.functions@[i]).wf(types, sigs)
    }

    /// Builds the whole function table: resolves every collected
    /// declaration, in id order, before any lowering begins.
    pub fn new(
        declarations: &Declarations,
        types: &mut Types,
        signatures: &mut FunctionSignatures,
    ) -> (r: Result<Self, Error>)
        requires
            old(types).wf(),
            old(signatures).wf(),
        ensures
            final(types).wf(),
            final(signatures).wf(),
            old(types).spec_types().is_prefix_of(final(types).spec_types()),
            old(signatures).spec_signatures().is_prefix_of(final(signatures).spec_signatures()),
            tables_wf(old(types).spec_types(), old(signatures).spec_signatures()) ==> tables_wf(
                final(types).spec_types(),
                final(signatures).spec_signatures(),
            ),
            (r is Ok) == (forall|i: int|
                0 <= i < declarations.functions@.len() ==> function_types_resolvable(
                    (#[trigger] declarations.functions@[i]).ast,
                )),
            match r {
                Ok(functions) => {
                    &&& functions.functions@.len() == declarations.functions@.len()
                    &&& functions.wf(final(types).spec_types(), final(signatures).spec_signatures())
                    &&& forall|i: int|
                        0 <= i < functions.functions@.len() ==> (#[trigger] functions.functions@[i])
                            .arguments@.len() == declarations.functions@[i].ast.args.spec_items().len()
                    &&& forall|i: int|
                        0 <= i < functions.functions@.len() ==> function_built(
                            #[trigger] functions.functions@[i],
                            declarations.functions@[i].ast,
                            final(types).spec_types(),
                        )
                },
                Err(e) => e.spec_kind() == ErrorKind::UnsupportedConstruct,
            },
    {
        let mut this = Functions { functions: Vec::new() };
        let ghost mut stages: Seq<Seq<Type>> = Seq::empty();
        let mut i: usize = 0;
        let n = declarations.functions.len();
        while i < n
            invariant
                n == declarations.functions@.len(),
                i <= n,
                types.wf(),
                signatures.wf(),
                old(types).spec_types().is_prefix_of(types.spec_types()),
                old(signatures).spec_signatures().is_prefix_of(signatures.spec_signatures()),
                tables_wf(old(types).spec_types(), old(signatures).spec_signatures())
                    ==> tables_wf(types.spec_types(), signatures.spec_signatures()),
                this.functions@.len() == i,
                this.wf(types.spec_types(), signatures.spec_signatures()),
                forall|j: int|
                    0 <= j < i ==> function_types_resolvable(
                        (#[trigger] declarations.functions@[j]).ast,
                    ),
                stages.len() == i,
                forall|j: int|
                    0 <= j < i ==> function_built_from(
                        #[trigger] this.functions@[j],
                        declarations.functions@[j].ast,
                        stages[j],
                        types.spec_types(),
                    ),
                forall|j: int|
                    0 <= j < i ==> (#[trigger] this.functions@[j]).arguments@.len()
                        == declarations.functions@[j].ast.args.spec_items().len(),
            decreases n - i,
        {
            let ghost table_before = types.spec_types();
            let ghost sigs_before = signatures.spec_signatures();
            let ghost fns_before = this.functions@;
            proof {
                assert(forall|j: int|
                    0 <= j < fns_before.len() ==> (#[trigger] fns_before[j]).wf(
                        table_before,
                        sigs_before,
                    ));
                assert(forall|j: int|
                    0 <= j < fns_before.len() ==> (#[trigger] fns_before[j]).arguments@.len()
                        == declarations.functions@[j].ast.args.spec_items().len());
            }
            let declaration = &declarations.functions[i];
            match this.insert_function(
                declarations,
                types,
                signatures,
                FunctionId(i),
                &declaration.ast,
            ) {
                Ok(_) => {},
                Err(e) => {
                    proof {
                        lemma_prefix_trans(
                            old(types).spec_types(),
                            table_before,
                            types.spec_types(),
                        );
                        lemma_prefix_trans(
                            old(signatures).spec_signatures(),
                            sigs_before,
                            signatures.spec_signatures(),
                        );
                    }
                    return Err(e);
                },
            }
            proof {
                lemma_prefix_trans(old(types).spec_types(), table_before, types.spec_types());
                lemma_prefix_trans(
                    old(signatures).spec_signatures(),
                    sigs_before,
                    signatures.spec_signatures(),
                );
                assert(forall|j: int|
                    0 <= j < fns_before.len() ==> this.functions@[j] == fns_before[j]);
                assert(this.functions@[i as int] == this.functions@.last());
                stages = stages.push(table_before);
                assert forall|j: int| 0 <= j < i + 1 implies function_built_from(
                    #[trigger] this.functions@[j],
                    declarations.functions@[j].ast,
                    stages[j],
                    types.spec_types(),
                ) by {
                    if j < i {
                        assert(stages[j] == stages.drop_last()[j]);
                        assert(function_built_from(
                            fns_before[j],
                            declarations.functions@[j].ast,
                            stages[j],
                            table_before,
                        ));
                        lemma_function_built_from_grow(
                            this.functions@[j],
                            declarations.functions@[j].ast,
                            stages[j],
                            table_before,
                            types.spec_types(),
                        );
                    } else {
                        assert(stages[j] == table_before);
                        assert(function_built_from(
                            this.functions@[j],
                            declarations.functions@[j].ast,
                            table_before,
                            types.spec_types(),
                        ));
                    }
                }
                assert forall|j: int| 0 <= j < i + 1 implies (#[trigger] this.functions@[j])
                    .arguments@.len() == declarations.functions@[j].ast.args.spec_items().len()
                by {
                    if j < i {
                        assert(this.functions@[j] == fns_before[j]);
                        assert(fns_before[j].arguments@.len()
                            == declarations.functions@[j].ast.args.spec_items().len());
                    } else {
                        assert(this.functions@[j] == this.functions@.last());
                    }
                }
                assert forall|j: int| 0 <= j < this.functions@.len() implies (
                #[trigger] this.functions@[j]).wf(
                    types.spec_types(),
                    signatures.spec_signatures(),
                ) by {
                    if j < fns_before.len() {
                        assert(this.functions@[j] == fns_before[j]);
                        assert(fns_before[j].wf(table_before, sigs_before));
                        lemma_function_wf_prefix(
                            this.functions@[j],
                            table_before,
                            types.spec_types(),
                            sigs_before,
                            signatures.spec_signatures(),
                        );
                    }
                }
            }
            i += 1;
        }
        proof {
            assert forall|j: int| 0 <= j < this.functions@.len() implies function_built(
                #[trigger] this.functions@[j],
                declarations.functions@[j].ast,
                types.spec_types(),
            ) by {
                assert(function_built_from(
                    this.functions@[j],
                    declarations.functions@[j].ast,
                    stages[j],
                    types.spec_types(),
                ));
            }
        }
        Ok(this)
    }

    /// Resolves one declaration and records it; `id` must be the next dense
    /// id, i.e. records are inserted in id order.
    pub fn insert_function(
        &mut self,
        declarations: &Declarations,
        types: &mut Types,
        signatures: &mut FunctionSignatures,
        id: FunctionId,
        function: &ast::FunctionDeclaration,
    ) -> (r: Result<(), Error>)
        requires
            old(types).wf(),
            old(signatures).wf(),
            id.0 == old(self).functions@.len(),
        ensures
            final(types).wf(),
            final(signatures).wf(),
            old(types).spec_types().is_prefix_of(final(types).spec_types()),
            old(signatures).spec_signatures().is_prefix_of(final(signatures).spec_signatures()),
            tables_wf(old(types).spec_types(), old(signatures).spec_signatures()) ==> tables_wf(
                final(types).spec_types(),
                final(signatures).spec_signatures(),
            ),
            (r is Ok) == function_types_resolvable(*function),
            match r {
                Ok(_) => {
                    &&& final(self).functions@.len() == old(self).functions@.len() + 1
                    &&& final(self).functions@.take(old(self).functions@.len() as int) == old(self).functions@
                    &&& final(self).functions@.last().wf(
                        final(types).spec_types(),
                        final(signatures).spec_signatures(),
                    )
                    &&& final(self).functions@.last().arguments@.len()
                        == function.args.spec_items().len()
                    &&& function_built_from(
                        final(self).functions@.last(),
                        *function,
                        old(types).spec_types(),
                        final(types).spec_types(),
                    )
                },
                Err(e) => {
                    &&& e.spec_kind() == ErrorKind::UnsupportedConstruct
                    &&& final(self).functions@ == old(self).functions@
                },
            },
    {
        let record = match Function::from_ast(declarations, types, signatures, function) {
            Ok(record) => record,
            Err(e) => {
                return Err(e);
            },
        };
        self.functions.push(record);
        proof {
            assert(self.functions@.take(old(self).functions@.len() as int) == old(self).functions@);
        }
        Ok(())
    }
}

} // verus!
