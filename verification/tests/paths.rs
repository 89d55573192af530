use fernc::ast::path::{Path, PathSegment};
use fernc::ast::token::Ident;
use fernc::compiler::declarations::{Declarations, Module};
use fernc::error::ErrorKind;
use fernc::id::ModuleId;
use fernc::span::Span;

fn ident(name: &str) -> Ident {
    Ident::new(name.to_string(), Span::null())
}

/// A registry with a chain root -> mid -> leaf of nested modules.
fn nested_registry() -> Declarations {
    let mut declarations = Declarations::new();
    declarations.modules.push(Module {
        super_module: Some(ModuleId(0)),
        sub_modules: Vec::new(),
        functions: Vec::new(),
    });
    declarations.modules.push(Module {
        super_module: Some(ModuleId(1)),
        sub_modules: Vec::new(),
        functions: Vec::new(),
    });
    declarations.modules[0].sub_modules.push((ident("mid"), ModuleId(1)));
    declarations.modules[1].sub_modules.push((ident("leaf"), ModuleId(2)));
    declarations
}

#[test]
fn super_super_resolves_to_root() {
    let declarations = nested_registry();
    let mut path = Path::empty();
    path.push_segment(PathSegment::Super);
    path.push_segment(PathSegment::Super);
    path.push_ident(ident("name"));
    let resolved = declarations.canonicalize_module(ModuleId(2), &path).unwrap();
    assert_eq!(resolved, ModuleId(0));
}

#[test]
fn super_past_root_is_an_invalid_path() {
    let declarations = nested_registry();
    let mut path = Path::empty();
    path.push_segment(PathSegment::Super);
    path.push_segment(PathSegment::Super);
    path.push_segment(PathSegment::Super);
    path.push_ident(ident("name"));
    let error = declarations.canonicalize_module(ModuleId(2), &path).unwrap_err();
    assert_eq!(error.kind(), ErrorKind::InvalidPath);
}

#[test]
fn absolute_path_starts_at_the_root() {
    let declarations = nested_registry();
    let mut path = Path::absolute();
    path.push_ident(ident("mid"));
    path.push_ident(ident("name"));
    let resolved = declarations.canonicalize_module(ModuleId(2), &path).unwrap();
    assert_eq!(resolved, ModuleId(1));
}

#[test]
fn relative_path_descends_into_sub_modules() {
    let declarations = nested_registry();
    let mut path = Path::empty();
    path.push_ident(ident("leaf"));
    path.push_ident(ident("name"));
    let resolved = declarations.canonicalize_module(ModuleId(1), &path).unwrap();
    assert_eq!(resolved, ModuleId(2));
}

#[test]
fn unknown_sub_module_is_an_invalid_path() {
    let declarations = nested_registry();
    let mut path = Path::empty();
    path.push_ident(ident("nowhere"));
    path.push_ident(ident("name"));
    let error = declarations.canonicalize_module(ModuleId(0), &path).unwrap_err();
    assert_eq!(error.kind(), ErrorKind::InvalidPath);
}

#[test]
fn bare_identifier_path_helpers() {
    let mut path = Path::empty();
    assert!(path.as_ident().is_none());
    path.push_ident(ident("x"));
    assert_eq!(path.as_ident().unwrap().string().as_str(), "x");
    assert_eq!(path.get_ident().unwrap().string().as_str(), "x");
    assert!(!path.is_absolute());
    assert_eq!(path.iter_modules().len(), 0);
    path.push_ident(ident("y"));
    assert!(path.as_ident().is_none());
    assert_eq!(path.get_ident().unwrap().string().as_str(), "y");
    assert_eq!(path.iter_modules().len(), 1);
}
