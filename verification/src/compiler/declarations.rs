use vstd::prelude::*;

use crate::ast;
use crate::ast::path::PathSegment;
use crate::ast::token::Ident;
use crate::compiler::ty::{interned_type_id, interned_types, Type, Types};
use crate::error::{Error, ErrorKind};
use crate::id::{FunctionId, ModuleId, TypeId};
use crate::ir::memory::MemoryType;

verus! {

/// The semantic type a source-level type resolves to, against the given
/// interning table. Independent of the table except through the ids of
/// nested reference types.
pub open spec fn resolved_type(types: Seq<Type>, t: ast::Type) -> Result<Type, ErrorKind>
    decreases t,
{
    match t {
        ast::Type::Void => Ok(Type::Void),
        ast::Type::Boolean => Ok(Type::Memory(MemoryType::Bool)),
        ast::Type::Integer(integer) => Ok(
            Type::Memory(
                match integer {
                    ast::IntegerType::I8 => MemoryType::I8,
                    ast::IntegerType::U8 => MemoryType::U8,
                    ast::IntegerType::I16 => MemoryType::I16,
                    ast::IntegerType::U16 => MemoryType::U16,
                    ast::IntegerType::I32 => MemoryType::I32,
                    ast::IntegerType::U32 => MemoryType::U32,
                    ast::IntegerType::I64 => MemoryType::I64,
                    ast::IntegerType::U64 => MemoryType::U64,
                },
            ),
        ),
        ast::Type::Path(_) => Err(ErrorKind::UnsupportedConstruct),
        ast::Type::Reference(inner) => match resolved_type(types, *inner.ty) {
            Ok(resolved) => Ok(
                Type::Reference(
                    TypeId(
                        interned_type_id(
                            resolved_types_table(types, *inner.ty),
                            resolved,
                        ) as usize,
                    ),
                ),
            ),
            Err(e) => Err(e),
        },
    }
}

/// The interning table after resolving a source-level type: every nested
/// referent that resolution had to intern is appended, in resolution order.
pub open spec fn resolved_types_table(types: Seq<Type>, t: ast::Type) -> Seq<Type>
    decreases t,
{
    match t {
        ast::Type::Reference(inner) => {
            let table = resolved_types_table(types, *inner.ty);
            match resolved_type(types, *inner.ty) {
                Ok(resolved) => interned_types(table, resolved),
                Err(_) => table,
            }
        },
        _ => types,
    }
}

/// A collected function declaration: the syntax of the function and the
/// module it was declared in.
#[derive(Debug)]
pub struct FunctionDeclaration {
    pub ast: ast::FunctionDeclaration,
    pub module: ModuleId,
}

/// One module: its parent (absent only for the root), its sub-modules and
/// its functions, each keyed by name.
#[derive(Debug)]
pub struct Module {
    pub super_module: Option<ModuleId>,
    pub sub_modules: Vec<(Ident, ModuleId)>,
    pub functions: Vec<(Ident, FunctionId)>,
}

/// Looks a name up in an association list. The *last* entry for a name
/// wins: registering a name again silently supersedes the earlier binding,
/// as re-declaration does.
pub open spec fn lookup_name<T>(s: Seq<(Ident, T)>, name: Seq<char>) -> Option<T>
    decreases s.len(),
{
    if s.len() == 0 {
        None
    } else if s.last().0@ == name {
        Some(s.last().1)
    } else {
        lookup_name(s.drop_last(), name)
    }
}

/// Walks the module segments of a path from `current`: `super` moves to the
/// parent, a name moves into that sub-module; either fails with
/// `InvalidPath` when there is nothing to move to.
pub open spec fn resolve_modules(
    modules: Seq<Module>,
    current: ModuleId,
    segments: Seq<PathSegment>,
) -> Result<ModuleId, ErrorKind>
    decreases segments.len(),
{
    if segments.len() == 0 {
        Ok(current)
    } else {
        let step = match segments[0] {
            PathSegment::Super => match modules[current.0 as int].super_module {
                Some(parent) => Ok(parent),
                None => Err(ErrorKind::InvalidPath),
            },
            PathSegment::Ident(ident) => match lookup_name(
                modules[current.0 as int].sub_modules@,
                ident@,
            ) {
                Some(sub) => Ok(sub),
                None => Err(ErrorKind::InvalidPath),
            },
        };
        match step {
            Ok(next) => resolve_modules(modules, next, segments.drop_first()),
            Err(e) => Err(e),
        }
    }
}

/// The module a path starts its walk from: the root for an absolute path,
/// the given base module otherwise.
pub open spec fn walk_start(d: Declarations, base: ModuleId, path: ast::Path) -> ModuleId {
    if path.absolute is Some {
        d.base_module
    } else {
        base
    }
}

/// The function declaration a top-level declaration consists of.
pub open spec fn decl_fn(d: ast::Declaration) -> ast::FunctionDeclaration {
    match d {
        ast::Declaration::Function(f) => f,
    }
}

/// The module tree and function registry collected from the top-level
/// declarations, before any type is resolved.
#[derive(Debug)]
pub struct Declarations {
    pub base_module: ModuleId,
    pub modules: Vec<Module>,
    pub functions: Vec<FunctionDeclaration>,
}

impl Declarations {
    /// Every id stored anywhere in the tables points back into them.
    pub open spec fn wf(&self) -> bool {
        &&& self.base_module.0 < self.modules@.len()
        &&& forall|i: int|
            0 <= i < self.modules@.len() ==> match #[trigger] self.modules@[i].super_module {
                Some(parent) => parent.0 < self.modules@.len(),
                None => true,
            }
        &&& forall|i: int, j: int|
            0 <= i < self.modules@.len() && 0 <= j < self.modules@[i].sub_modules@.len()
                ==> (#[trigger] self.modules@[i].sub_modules@[j]).1.0 < self.modules@.len()
        &&& forall|i: int, j: int|
            0 <= i < self.modules@.len() && 0 <= j < self.modules@[i].functions@.len()
                ==> (#[trigger] self.modules@[i].functions@[j]).1.0 < self.functions@.len()
        &&& forall|i: int|
            0 <= i < self.functions@.len() ==> (#[trigger] self.functions@[i]).module.0
                < self.modules@.len()
    }

    /// A registry holding only an empty root module.
    pub fn new() -> (r: Self)
        ensures
            r.wf(),
            r.base_module == (ModuleId(0)),
            r.modules@.len() == 1,
            r.modules@[0].super_module is None,
            r.modules@[0].sub_modules@ == Seq::<(Ident, ModuleId)>::empty(),
            r.modules@[0].functions@ == Seq::<(Ident, FunctionId)>::empty(),
            r.functions@ == Seq::<FunctionDeclaration>::empty(),
    {
        let root = Module { super_module: None, sub_modules: Vec::new(), functions: Vec::new() };
        let mut modules = Vec::new();
        modules.push(root);
        Declarations { base_module: ModuleId(0), modules, functions: Vec::new() }
    }

    /// Collects every top-level declaration of `program` into the root
    /// module, in order; declaration `i` receives function id `i`.
    pub fn from_program(program: ast::Program) -> (r: Result<Self, Error>)
        ensures
            r is Ok,
            match r {
                Ok(d) => {
                    &&& d.wf()
                    &&& d.base_module == (ModuleId(0))
                    &&& d.modules@.len() == 1
                    &&& d.functions@.len() == program.declarations@.len()
                    &&& forall|i: int|
                        0 <= i < d.functions@.len() ==> (#[trigger] d.functions@[i]).ast
                            == decl_fn(program.declarations@[i]) && d.functions@[i].module == (
                        ModuleId(0))
                    &&& d.modules@[0].sub_modules@ == Seq::<(Ident, ModuleId)>::empty()
                    &&& d.modules@[0].super_module is None
                    &&& d.modules@[0].functions@.len() == program.declarations@.len()
                    &&& forall|i: int|
                        0 <= i < d.modules@[0].functions@.len() ==> (#[trigger] d.modules@[0]
                            .functions@[i]).0@ == decl_fn(program.declarations@[i]).ident@
                            && d.modules@[0].functions@[i].1 == (FunctionId(i as usize))
                },
                Err(_) => false,
            },
    {
        let mut this = Declarations::new();
        let base = this.base_module;
        let mut declarations = program.declarations;
        let ghost decls = declarations@;
        let mut i: usize = 0;
        let n = declarations.len();
        proof {
            assert(decls.skip(0) == decls);
            assert(decls.len() == n as int);
        }
        while declarations.len() > 0
            invariant
                base == (ModuleId(0)),
                decls.len() <= usize::MAX,
                i + declarations@.len() == decls.len(),
                declarations@ == decls.skip(i as int),
                this.wf(),
                this.base_module == (ModuleId(0)),
                this.modules@.len() == 1,
                this.modules@[0].sub_modules@ == Seq::<(Ident, ModuleId)>::empty(),
                this.modules@[0].super_module is None,
                this.functions@.len() == i,
                this.modules@[0].functions@.len() == i,
                forall|j: int|
                    0 <= j < i ==> (#[trigger] this.functions@[j]).ast == decl_fn(decls[j])
                        && this.functions@[j].module == (ModuleId(0)),
                forall|j: int|
                    0 <= j < i ==> (#[trigger] this.modules@[0].functions@[j]).0@ == decl_fn(
                        decls[j],
                    ).ident@ && this.modules@[0].functions@[j].1 == (FunctionId(j as usize)),
            decreases declarations@.len(),
        {
            let declaration = declarations.remove(0);
            let ghost funcs_before = this.functions@;
            let ghost mod_funcs_before = this.modules@[0].functions@;
            proof {
                assert(decls.skip(i as int)[0] == decls[i as int]);
                assert(decls.skip(i as int).remove(0) == decls.skip(i + 1));
            }
            match this.insert_declaration(base, declaration) {
                Ok(_) => {},
                Err(e) => {
                    return Err(e);
                },
            }
            proof {
                assert(forall|j: int|
                    0 <= j < funcs_before.len() ==> this.functions@[j] == funcs_before[j]);
                assert(forall|j: int|
                    0 <= j < mod_funcs_before.len() ==> this.modules@[0].functions@[j]
                        == mod_funcs_before[j]);
                assert(decls[i as int] == declaration);
                assert(this.modules@[0].functions@[i as int] == this.modules@[0].functions@.last());
                assert(this.functions@[i as int] == this.functions@.last());
                assert forall|j: int| 0 <= j < i + 1 implies (#[trigger] this.functions@[j]).ast
                    == decl_fn(decls[j]) && this.functions@[j].module == (ModuleId(0)) by {
                    if j < i {
                        assert(this.functions@[j] == funcs_before[j]);
                        assert(funcs_before[j].ast == decl_fn(decls[j]));
                    } else {
                        assert(this.functions@.last().ast == decl_fn(declaration));
                    }
                }
                assert forall|j: int| 0 <= j < i + 1 implies (#[trigger] this.modules@[0]
                    .functions@[j]).0@ == decl_fn(decls[j]).ident@ && this.modules@[0]
                    .functions@[j].1 == (FunctionId(j as usize)) by {
                    if j < i {
                        assert(this.modules@[0].functions@[j] == mod_funcs_before[j]);
                        assert(mod_funcs_before[j].0@ == decl_fn(decls[j]).ident@);
                    } else {
                        assert(this.modules@[0].functions@.last().0@ == decl_fn(declaration).ident@);
                    }
                }
            }
            i += 1;
        }
        Ok(this)
    }

    /// Resolves a source-level type into the semantic type system, interning
    /// every nested type it mentions. Nominal (path) types are not
    /// implemented and are reported as unsupported.
    pub fn resolve_type(&self, types: &mut Types, ty: &ast::Type) -> (r: Result<Type, Error>)
        requires
            old(types).wf(),
        ensures
            final(types).wf(),
            final(types).spec_types() == resolved_types_table(old(types).spec_types(), *ty),
            final(types).spec_structs() == old(types).spec_structs(),
            match r {
                Ok(t) => resolved_type(old(types).spec_types(), *ty) == Ok::<Type, ErrorKind>(t),
                Err(e) => resolved_type(old(types).spec_types(), *ty) == Err::<Type, ErrorKind>(
                    e.spec_kind(),
                ),
            },
        decreases *ty,
    {
        match ty {
            ast::Type::Void => Ok(Type::Void),
            ast::Type::Boolean => Ok(Type::Memory(crate::ir::memory::MemoryType::Bool)),
            ast::Type::Integer(integer) => {
                let memory = match integer {
                    ast::IntegerType::I8 => crate::ir::memory::MemoryType::I8,
                    ast::IntegerType::U8 => crate::ir::memory::MemoryType::U8,
                    ast::IntegerType::I16 => crate::ir::memory::MemoryType::I16,
                    ast::IntegerType::U16 => crate::ir::memory::MemoryType::U16,
                    ast::IntegerType::I32 => crate::ir::memory::MemoryType::I32,
                    ast::IntegerType::U32 => crate::ir::memory::MemoryType::U32,
                    ast::IntegerType::I64 => crate::ir::memory::MemoryType::I64,
                    ast::IntegerType::U64 => crate::ir::memory::MemoryType::U64,
                };
                Ok(Type::Memory(memory))
            },
            ast::Type::Path(_) => Err(
                Error::new(
                    ErrorKind::UnsupportedConstruct,
                    "nominal types are not implemented yet".to_owned(),
                ),
            ),
            ast::Type::Reference(inner) => {
                let resolved = self.resolve_type(types, &inner.ty)?;
                let id = types.get_type_id(&resolved);
                Ok(Type::Reference(id))
            },
        }
    }

    /// Resolves a source-level type and interns the result itself, handing
    /// back its id.
    pub fn resolve_type_id(&self, types: &mut Types, ty: &ast::Type) -> (r: Result<TypeId, Error>)
        requires
            old(types).wf(),
        ensures
            final(types).wf(),
            final(types).spec_structs() == old(types).spec_structs(),
            match r {
                Ok(id) => {
                    let t0 = resolved_types_table(old(types).spec_types(), *ty);
                    match resolved_type(old(types).spec_types(), *ty) {
                        Ok(t) => {
                            &&& final(types).spec_types() == interned_types(t0, t)
                            &&& id.0 == interned_type_id(t0, t)
                            &&& id.0 < final(types).spec_types().len()
                            &&& final(types).spec_types()[id.0 as int] == t
                        },
                        Err(_) => false,
                    }
                },
                Err(e) => {
                    &&& resolved_type(old(types).spec_types(), *ty) == Err::<Type, ErrorKind>(
                        e.spec_kind(),
                    )
                    &&& final(types).spec_types() == resolved_types_table(old(types).spec_types(), *ty)
                },
            },
    {
        let resolved = self.resolve_type(types, ty)?;
        Ok(types.get_type_id(&resolved))
    }

    /// Registers one declaration into the given module: the function
    /// receives the next fresh id, and its name is bound to that id in the
    /// module, superseding any earlier binding of the same name.
    pub fn insert_declaration(&mut self, module_id: ModuleId, declaration: ast::Declaration) -> (r:
        Result<(), Error>)
        requires
            old(self).wf(),
            module_id.0 < old(self).modules@.len(),
        ensures
            r is Ok,
            final(self).wf(),
            final(self).base_module == old(self).base_module,
            final(self).modules@.len() == old(self).modules@.len(),
            match declaration {
                ast::Declaration::Function(f) => {
                    &&& final(self).functions@.len() == old(self).functions@.len() + 1
                    &&& final(self).functions@.take(old(self).functions@.len() as int) == old(self).functions@
                    &&& final(self).functions@.last().ast == f
                    &&& final(self).functions@.last().module == module_id
                    &&& final(self).modules@[module_id.0 as int].functions@.len() == old(self).modules@[module_id.0 as int].functions@.len() + 1
                    &&& final(self).modules@[module_id.0 as int].functions@.take(
                        old(self).modules@[module_id.0 as int].functions@.len() as int,
                    ) == old(self).modules@[module_id.0 as int].functions@
                    &&& final(self).modules@[module_id.0 as int].functions@.last().0@ == f.ident@
                    &&& final(self).modules@[module_id.0 as int].functions@.last().1 == (FunctionId(
                        old(self).functions@.len() as usize,
                    ))
                    &&& final(self).modules@[module_id.0 as int].super_module == old(self).modules@[module_id.0 as int].super_module
                    &&& final(self).modules@[module_id.0 as int].sub_modules@ == old(self).modules@[module_id.0 as int].sub_modules@
                    &&& forall|i: int|
                        (0 <= i < old(self).modules@.len() && i != module_id.0) ==> final(self).modules@[i] == old(self).modules@[i]
                },
            },
    {
        match declaration {
            ast::Declaration::Function(function) => {
                let function_id = FunctionId(self.functions.len());
                let name = function.ident.clone();
                let module = &mut self.modules[module_id.0];
                module.functions.push((name, function_id));
                self.functions.push(FunctionDeclaration { ast: function, module: module_id });
                Ok(())
            },
        }
    }

    /// Canonicalizes the module prefix of `path`: starts from the root for
    /// an absolute path and from `module_id` otherwise, then walks every
    /// segment but the last. Fails with `InvalidPath` on `super` past the
    /// root or on an unknown sub-module name.
    pub fn canonicalize_module(&self, module_id: ModuleId, path: &ast::Path) -> (r: Result<
        ModuleId,
        Error,
    >)
        requires
            self.wf(),
            module_id.0 < self.modules@.len(),
        ensures
            match r {
                Ok(m) => resolve_modules(
                    self.modules@,
                    walk_start(*self, module_id, *path),
                    path.spec_module_segments(),
                ) == Ok::<ModuleId, ErrorKind>(m) && m.0 < self.modules@.len(),
                Err(e) => resolve_modules(
                    self.modules@,
                    walk_start(*self, module_id, *path),
                    path.spec_module_segments(),
                ) == Err::<ModuleId, ErrorKind>(e.spec_kind()) && e.spec_kind()
                    == ErrorKind::InvalidPath,
            },
    {
        let mut current = if path.is_absolute() {
            self.base_module
        } else {
            module_id
        };
        let segments = path.iter_modules();
        let ghost segs = path.spec_module_segments();
        let mut i: usize = 0;
        proof {
            assert(segs.skip(0) == segs);
        }
        while i < segments.len()
            invariant
                self.wf(),
                segs == path.spec_module_segments(),
                segments@.len() == segs.len(),
                forall|j: int| 0 <= j < segs.len() ==> *segments@[j] == segs[j],
                i <= segs.len(),
                current.0 < self.modules@.len(),
                resolve_modules(self.modules@, walk_start(*self, module_id, *path), segs)
                    == resolve_modules(self.modules@, current, segs.skip(i as int)),
            decreases segs.len() - i,
        {
            let ghost rest = segs.skip(i as int);
            proof {
                assert(rest.len() > 0);
                assert(rest[0] == segs[i as int]);
                assert(rest.drop_first() == segs.skip(i + 1));
                assert(*segments@[i as int] == segs[i as int]);
            }
            let module = &self.modules[current.0];
            match segments[i] {
                PathSegment::Super => {
                    match module.super_module {
                        Some(parent) => {
                            current = parent;
                        },
                        None => {
                            proof {
                                assert(segs[i as int] is Super);
                                assert(self.modules@[current.0 as int].super_module is None);
                                assert(resolve_modules(self.modules@, current, rest) == Err::<
                                    ModuleId,
                                    ErrorKind,
                                >(ErrorKind::InvalidPath));
                            }
                            return Err(
                                Error::new(
                                    ErrorKind::InvalidPath,
                                    "no super module to step out to".to_owned(),
                                ),
                            );
                        },
                    }
                },
                PathSegment::Ident(ident) => {
                    match lookup_module(&module.sub_modules, ident) {
                        Some(sub) => {
                            proof {
                                lemma_lookup_name_in(
                                    self.modules@[current.0 as int].sub_modules@,
                                    ident@,
                                );
                            }
                            current = sub;
                        },
                        None => {
                            proof {
                                assert(segs[i as int] == PathSegment::Ident(*ident));
                                assert(lookup_name(
                                    self.modules@[current.0 as int].sub_modules@,
                                    ident@,
                                ) is None);
                                assert(resolve_modules(self.modules@, current, rest) == Err::<
                                    ModuleId,
                                    ErrorKind,
                                >(ErrorKind::InvalidPath));
                            }
                            return Err(
                                Error::new(
                                    ErrorKind::InvalidPath,
                                    "no sub-module with this name".to_owned(),
                                ),
                            );
                        },
                    }
                },
            }
            i += 1;
        }
        proof {
            assert(segs.skip(i as int).len() == 0);
        }
        Ok(current)
    }
}

/// A successful lookup hands back the value of some entry of the list.
pub proof fn lemma_lookup_name_in<T>(s: Seq<(Ident, T)>, name: Seq<char>)
    ensures
        match lookup_name(s, name) {
            Some(v) => exists|j: int| 0 <= j < s.len() && #[trigger] s[j].1 == v,
            None => true,
        },
    decreases s.len(),
{
    if s.len() > 0 {
        if s.last().0@ == name {
            assert(s[s.len() - 1].1 == s.last().1);
        } else {
            lemma_lookup_name_in(s.drop_last(), name);
            match lookup_name(s.drop_last(), name) {
                Some(v) => {
                    let j = choose|j: int|
                        0 <= j < s.drop_last().len() && #[trigger] s.drop_last()[j].1 == v;
                    assert(s[j].1 == v);
                },
                None => {},
            }
        }
    }
}

/// Looks a sub-module name up, the last binding first.
fn lookup_module(entries: &Vec<(Ident, ModuleId)>, name: &Ident) -> (r: Option<ModuleId>)
    ensures
        r == lookup_name(entries@, name@),
{
    let mut i: usize = entries.len();
    proof {
        assert(entries@.take(i as int) == entries@);
    }
    while i > 0
        invariant
            i <= entries@.len(),
            lookup_name(entries@, name@) == lookup_name(entries@.take(i as int), name@),
        decreases i,
    {
        i -= 1;
        if entries[i].0 == *name {
            proof {
                assert(entries@.take(i + 1).last() == entries@[i as int]);
            }
            return Some(entries[i].1);
        }
        proof {
            assert(entries@.take(i + 1).drop_last() == entries@.take(i as int));
        }
    }
    None
}

/// Looks a function name up in a module, the last binding first.
pub fn lookup_function_name(entries: &Vec<(Ident, FunctionId)>, name: &Ident) -> (r: Option<
    FunctionId,
>)
    ensures
        r == lookup_name(entries@, name@),
{
    let mut i: usize = entries.len();
    proof {
        assert(entries@.take(i as int) == entries@);
    }
    while i > 0
        invariant
            i <= entries@.len(),
            lookup_name(entries@, name@) == lookup_name(entries@.take(i as int), name@),
        decreases i,
    {
        i -= 1;
        if entries[i].0 == *name {
            proof {
                assert(entries@.take(i + 1).last() == entries@[i as int]);
            }
            return Some(entries[i].1);
        }
        proof {
            assert(entries@.take(i + 1).drop_last() == entries@.take(i as int));
        }
    }
    None
}

} // verus!
