use vstd::prelude::*;

use crate::ast::token::{Keyword, Symbol, Token};
use crate::span::Span;

verus! {

/// The category of a compilation failure. Every error the compiler reports
/// falls under exactly one of these.
#[derive(Clone, Copy, Debug, PartialEq, Eq, Structural)]
pub enum ErrorKind {
    /// A path that names nothing.
    UndefinedPath,
    /// A module prefix that cannot be walked: `super` past the root, or an
    /// unknown sub-module.
    InvalidPath,
    /// Two types that had to be equal were not.
    TypeMismatch,
    /// A call whose arguments do not match the callee's signature.
    ArgumentMismatch,
    /// A call on a value that is not a function.
    NotCallable,
    /// A reference taken of a value with no addressable storage.
    InvalidReference,
    /// A dereference of a value that is not a reference.
    InvalidDereference,
    /// A function with a non-void return type whose body never returns.
    MissingReturn,
    /// A construct the compiler does not support yet.
    UnsupportedConstruct,
    /// Malformed surface syntax.
    Syntax,
}

/// One reported failure: a category, a message, and optionally where it
/// happened and further hints. The first error aborts the compilation;
/// nothing accumulates more than one.
#[derive(Clone, Debug)]
pub struct Error {
    kind: ErrorKind,
    message: String,
    span: Option<Span>,
    hints: Vec<ErrorHint>,
}

impl Error {
    pub closed spec fn spec_kind(&self) -> ErrorKind {
        self.kind
    }

    pub closed spec fn spec_message(&self) -> Seq<char> {
        self.message@
    }

    pub closed spec fn spec_span(&self) -> Option<Span> {
        self.span
    }

    pub closed spec fn spec_hints(&self) -> Seq<ErrorHint> {
        self.hints@
    }

    pub fn new(kind: ErrorKind, message: String) -> (r: Self)
        ensures
            r.spec_kind() == kind,
            r.spec_message() == message@,
            r.spec_span() is None,
            r.spec_hints() == Seq::<ErrorHint>::empty(),
    {
        Error { kind, message, span: None, hints: Vec::new() }
    }

    pub fn spanned(kind: ErrorKind, message: String, span: Span) -> (r: Self)
        ensures
            r.spec_kind() == kind,
            r.spec_message() == message@,
            r.spec_span() == Some(span),
            r.spec_hints() == Seq::<ErrorHint>::empty(),
    {
        Error { kind, message, span: Some(span), hints: Vec::new() }
    }

    pub fn add_hint(&mut self, hint: ErrorHint)
        ensures
            final(self).spec_kind() == old(self).spec_kind(),
            final(self).spec_message() == old(self).spec_message(),
            final(self).spec_span() == old(self).spec_span(),
            final(self).spec_hints() == old(self).spec_hints().push(hint),
    {
        self.hints.push(hint);
    }

    pub fn with_hint(self, message: String, span: Span) -> (r: Self)
        ensures
            r.spec_kind() == self.spec_kind(),
            r.spec_message() == self.spec_message(),
            r.spec_span() == self.spec_span(),
            r.spec_hints().len() == self.spec_hints().len() + 1,
            r.spec_hints().take(self.spec_hints().len() as int) == self.spec_hints(),
            r.spec_hints().last().spec_message() == message@,
            r.spec_hints().last().spec_span() == span,
    {
        let mut this = self;
        this.add_hint(ErrorHint::new(message, span));
        this
    }

    pub fn kind(&self) -> (r: ErrorKind)
        ensures
            r == self.spec_kind(),
    {
        self.kind
    }

    pub fn message(&self) -> (r: &String)
        ensures
            r@ == self.spec_message(),
    {
        &self.message
    }

    pub fn span(&self) -> (r: Option<Span>)
        ensures
            r == self.spec_span(),
    {
        self.span
    }

    pub fn hints(&self) -> (r: &Vec<ErrorHint>)
        ensures
            r@ == self.spec_hints(),
    {
        &self.hints
    }

    pub fn unexpected_eof(span: Span) -> (r: Self)
        ensures
            r.spec_kind() == ErrorKind::Syntax,
            r.spec_span() == Some(span),
    {
        Error::spanned(ErrorKind::Syntax, "unexpected end of file".to_owned(), span)
    }

    pub fn expected(expected: Expected, found: Token, span: Span) -> (r: Self)
        ensures
            r.spec_kind() == ErrorKind::Syntax,
            r.spec_span() == Some(span),
    {
        let _ = expected;
        let _ = found;
        Error::spanned(ErrorKind::Syntax, "found another token than expected".to_owned(), span)
    }

    pub fn expected_any(expected: Vec<Expected>, found: Token, span: Span) -> (r: Self)
        ensures
            r.spec_kind() == ErrorKind::Syntax,
            r.spec_span() == Some(span),
    {
        let _ = expected;
        let _ = found;
        Error::spanned(
            ErrorKind::Syntax,
            "found another token than any of those expected".to_owned(),
            span,
        )
    }
}

/// What a syntax consumer was looking for when it failed.
#[derive(Clone, Debug, PartialEq, Eq)]
pub enum Expected {
    Ident,
    String,
    Integer,
    Symbol(Symbol),
    Keyword(Keyword),
    Expression,
}

/// A secondary note attached to an error, pointing at a related location.
#[derive(Clone, Debug)]
pub struct ErrorHint {
    message: String,
    span: Span,
}

impl ErrorHint {
    pub closed spec fn spec_message(&self) -> Seq<char> {
        self.message@
    }

    pub closed spec fn spec_span(&self) -> Span {
        self.span
    }

    pub fn new(message: String, span: Span) -> (r: Self)
        ensures
            r.spec_message() == message@,
            r.spec_span() == span,
    {
        ErrorHint { message, span }
    }

    pub fn message(&self) -> (r: &String)
        ensures
            r@ == self.spec_message(),
    {
        &self.message
    }

    pub fn span(&self) -> (r: Span)
        ensures
            r == self.spec_span(),
    {
        self.span
    }
}

} // verus!
