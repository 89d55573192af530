//! The semantic core: declaration collection, type and signature interning,
//! function-table construction, and lowering of function bodies into the
//! intermediate representation.

pub mod declarations;
pub mod function;
pub mod functions;
pub mod ty;
pub mod value;

pub use declarations::{Declarations, FunctionDeclaration, Module};
pub use function::{ControlFlow, FunctionCompiler, FunctionContext, FunctionVariable, Lowered};
pub use functions::{Function, FunctionArgument, FunctionSignature, FunctionSignatures, Functions};
pub use ty::{Struct, Type, Types};
pub use value::{Value, ValueKind};

use vstd::prelude::*;

use crate::ast;
use crate::ast::token::Ident;
use crate::compiler::declarations::decl_fn;
use crate::compiler::function::{
    lowered_function, lowered_functions, lowered_types_before, stmts_allocs,
};
use crate::compiler::functions::{function_built, function_types_resolvable, tables_wf};
use crate::error::{Error, ErrorKind};
use crate::id::{BlockId, FunctionId, ModuleId};
use crate::ir::block::Blocks;
use crate::ir::instruction::instructions_view;

verus! {

/// A declaration registry is what collection leaves behind for `program`:
/// one root module with no parent and no sub-modules, the declarations in
/// order under dense ids, and the root's name map binding each
/// declaration's name, by spelling, to its id. Unique up to the copied
/// identifier strings, which specifications pin by their spelling.
pub open spec fn collected_from(d: Declarations, program: ast::Program) -> bool {
    &&& d.wf()
    &&& d.base_module == (ModuleId(0))
    &&& d.modules@.len() == 1
    &&& d.modules@[0].super_module is None
    &&& d.modules@[0].sub_modules@ == Seq::<(Ident, ModuleId)>::empty()
    &&& d.functions@.len() == program.declarations@.len()
    &&& forall|i: int|
        0 <= i < d.functions@.len() ==> (#[trigger] d.functions@[i]).ast == decl_fn(
            program.declarations@[i],
        ) && d.functions@[i].module == (ModuleId(0))
    &&& d.modules@[0].functions@.len() == program.declarations@.len()
    &&& forall|i: int|
        0 <= i < d.modules@[0].functions@.len() ==> (#[trigger] d.modules@[0].functions@[i]).0@
            == decl_fn(program.declarations@[i]).ident@ && d.modules@[0].functions@[i].1 == (
        FunctionId(i as usize))
}

/// A semantic function table, signature table and type table are what
/// table building leaves behind for a registry: consistent tables, one
/// record per declaration, each built from its declaration against a
/// staged state of the append-only type table.
pub open spec fn built_from(
    f: Functions,
    s: FunctionSignatures,
    d: Declarations,
    types: Seq<Type>,
) -> bool {
    &&& f.functions@.len() == d.functions@.len()
    &&& tables_wf(types, s.spec_signatures())
    &&& f.wf(types, s.spec_signatures())
    &&& forall|i: int|
        0 <= i < f.functions@.len() ==> (#[trigger] f.functions@[i]).arguments@.len()
            == d.functions@[i].ast.args.spec_items().len()
    &&& forall|i: int|
        0 <= i < f.functions@.len() ==> function_built(
            #[trigger] f.functions@[i],
            d.functions@[i].ast,
            types,
        )
    &&& forall|i: int|
        0 <= i < d.functions@.len() ==> function_types_resolvable(
            (#[trigger] d.functions@[i]).ast,
        )
}

/// Runs the whole semantic pipeline over a syntax tree: collects the
/// declarations into the root module, resolves every function's signature
/// through the interning tables, lowers every body into the intermediate
/// representation, and hands back the aggregate of everything built. The
/// first error anywhere aborts the compilation.
pub fn compile_program(program: ast::Program) -> (r: Result<crate::ir::program::Program, Error>)
    requires
        forall|i: int|
            0 <= i < program.declarations@.len() ==> stmts_allocs(
                decl_fn(#[trigger] program.declarations@[i]).block.statements@,
                0,
            ) <= u32::MAX,
    ensures
        program.declarations@.len() == 0 ==> r is Ok,
        r is Ok ==> forall|i: int|
            0 <= i < program.declarations@.len() ==> function_types_resolvable(
                decl_fn(#[trigger] program.declarations@[i]),
            ),
        (exists|i: int|
            0 <= i < program.declarations@.len() && !function_types_resolvable(
                decl_fn(#[trigger] program.declarations@[i]),
            )) ==> match r {
            Ok(_) => false,
            Err(e) => e.spec_kind() == ErrorKind::UnsupportedConstruct,
        },
        match r {
            Ok(p) => exists|d: Declarations, f: Functions, s: FunctionSignatures, tb: Seq<Type>|
                #![trigger built_from(f, s, d, tb)]
                {
                    &&& collected_from(d, program)
                    &&& built_from(f, s, d, tb)
                    &&& ({
                        let fc = (FunctionCompiler { declarations: d, functions: f });
                        let (tf, outcome) = lowered_functions(fc, s, tb, 0);
                        &&& outcome is Ok
                        &&& p.types.spec_types() == tf
                        &&& p.signatures.spec_signatures() == s.spec_signatures()
                        &&& forall|i: int|
                            0 <= i < program.declarations@.len() ==> instructions_view(
                                (#[trigger] p.blocks.spec_blocks()[i]).spec_instructions(),
                            ) == lowered_function(
                                fc,
                                s,
                                lowered_types_before(fc, s, tb, i),
                                i,
                            ).0.emit.emitted
                    })
                },
            Err(e) => exists|d: Declarations|
                #![trigger collected_from(d, program)]
                {
                    &&& collected_from(d, program)
                    &&& ({
                        ||| (!(forall|i: int|
                            0 <= i < d.functions@.len() ==> function_types_resolvable(
                                (#[trigger] d.functions@[i]).ast,
                            )) && e.spec_kind() == ErrorKind::UnsupportedConstruct)
                        ||| exists|f: Functions, s: FunctionSignatures, tb: Seq<Type>|
                            #![trigger built_from(f, s, d, tb)]
                            {
                                &&& built_from(f, s, d, tb)
                                &&& lowered_functions(
                                    (FunctionCompiler { declarations: d, functions: f }),
                                    s,
                                    tb,
                                    0,
                                ).1 == Err::<(), ErrorKind>(e.spec_kind())
                            }
                    })
                },
        },
        match r {
            Ok(p) => {
                &&& p.types.wf()
                &&& p.signatures.wf()
                &&& tables_wf(p.types.spec_types(), p.signatures.spec_signatures())
                &&& p.functions.spec_entries().len() == program.declarations@.len()
                &&& p.blocks.spec_blocks().len() == program.declarations@.len()
                &&& forall|i: int|
                    0 <= i < p.functions.spec_entries().len() ==> {
                        &&& (#[trigger] p.functions.spec_entries()[i]).0 == (FunctionId(
                            i as usize,
                        ))
                        &&& p.functions.spec_entries()[i].1.blocks@.len() == 1
                        &&& p.functions.spec_entries()[i].1.blocks@[0] == (BlockId(i as usize))
                        &&& p.functions.spec_entries()[i].1.signature.0
                            < p.signatures.spec_signatures().len()
                    }
            },
            Err(_) => true,
        },
{
    let mut types = Types::new();
    let mut signatures = FunctionSignatures::new();
    let declarations = match Declarations::from_program(program) {
        Ok(declarations) => declarations,
        Err(e) => {
            return Err(e);
        },
    };
    proof {
        assert(collected_from(declarations, program));
    }
    let function_table = match Functions::new(&declarations, &mut types, &mut signatures) {
        Ok(function_table) => function_table,
        Err(e) => {
            proof {
                assert(!(forall|i: int|
                    0 <= i < declarations.functions@.len() ==> function_types_resolvable(
                        (#[trigger] declarations.functions@[i]).ast,
                    )));
            }
            return Err(e);
        },
    };
    let compiler = FunctionCompiler::new(declarations, function_table);
    let mut blocks = Blocks::new();
    let ghost built_types = types.spec_types();
    proof {
        assert(tables_wf(Seq::<Type>::empty(), Seq::<FunctionSignature>::empty()));
        assert(compiler.inv(types.spec_types(), signatures.spec_signatures()));
        assert forall|i: int| 0 <= i < compiler.declarations.functions@.len() implies stmts_allocs(
            (#[trigger] compiler.declarations.functions@[i]).ast.block.statements@,
            0,
        ) <= u32::MAX by {
            assert(compiler.declarations.functions@[i].ast == decl_fn(program.declarations@[i]));
        }
        assert forall|i: int|
            0 <= i < program.declarations@.len() implies function_types_resolvable(
            decl_fn(#[trigger] program.declarations@[i]),
        ) by {
            assert(compiler.declarations.functions@[i].ast == decl_fn(program.declarations@[i]));
            assert(function_types_resolvable(compiler.declarations.functions@[i].ast));
        }
        assert(collected_from(compiler.declarations, program));
        assert(built_from(compiler.functions, signatures, compiler.declarations, built_types));
        assert(compiler == (FunctionCompiler {
            declarations: compiler.declarations,
            functions: compiler.functions,
        }));
    }
    let functions = match compiler.compile_program(&mut blocks, &mut types, &signatures) {
        Ok(functions) => functions,
        Err(e) => {
            proof {
                assert(lowered_functions(
                    (FunctionCompiler {
                        declarations: compiler.declarations,
                        functions: compiler.functions,
                    }),
                    signatures,
                    built_types,
                    0,
                ).1 == Err::<(), ErrorKind>(e.spec_kind()));
            }
            return Err(e);
        },
    };
    proof {
        let fc = (FunctionCompiler {
            declarations: compiler.declarations,
            functions: compiler.functions,
        });
        assert(lowered_functions(fc, signatures, built_types, 0).1 is Ok);
        assert(types.spec_types() == lowered_functions(fc, signatures, built_types, 0).0);
        assert forall|i: int|
            0 <= i < program.declarations@.len() implies instructions_view(
            (#[trigger] blocks.spec_blocks()[i]).spec_instructions(),
        ) == lowered_function(
            fc,
            signatures,
            lowered_types_before(fc, signatures, built_types, i),
            i,
        ).0.emit.emitted by {
            assert(functions.spec_entries()[i].0 == (FunctionId(i as usize)));
        }
    }
    Ok(crate::ir::program::Program { types, signatures, blocks, functions })
}

} // verus!
