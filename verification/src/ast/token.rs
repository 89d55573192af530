use vstd::prelude::*;

use crate::span::{Span, Spanned};

verus! {

/// A keyword of the language.
#[derive(Clone, Copy, Debug, PartialEq, Eq, Structural, Hash)]
pub enum Keyword {
    Fn,
    Let,
    Return,
    Void,
    Bool,
    True,
    False,
    I8,
    U8,
    I16,
    U16,
    I32,
    U32,
    I64,
    U64,
}

/// A punctuation symbol of the language.
#[derive(Clone, Copy, Debug, PartialEq, Eq, Structural, Hash)]
pub enum Symbol {
    ShiftRight,
    ShiftLeft,
    Arrow,
    FatArrow,
    AndAnd,
    OrOr,
    ColonColon,
    OpenParen,
    CloseParen,
    OpenBracket,
    CloseBracket,
    OpenBrace,
    CloseBrace,
    Plus,
    Minus,
    Asterisk,
    Slash,
    And,
    Or,
    Equal,
    Dot,
    Comma,
    Colon,
    SemiColon,
}

/// A `::` between two path segments.
#[derive(Clone, Copy, Debug, PartialEq, Eq, Structural)]
pub struct ColonColon;

/// A `,` between two list elements.
#[derive(Clone, Copy, Debug, PartialEq, Eq, Structural)]
pub struct Comma;

/// A `:` between two list elements.
#[derive(Clone, Copy, Debug, PartialEq, Eq, Structural)]
pub struct Colon;

/// One lexical token.
#[derive(Clone, Debug, PartialEq, Eq, Hash)]
pub enum Token {
    Ident(String),
    String(String),
    Integer(Integer),
    Keyword(Keyword),
    Symbol(Symbol),
    Eof,
}

/// The notation an integer literal was written in.
#[derive(Clone, Copy, Debug, PartialEq, Eq, Structural, Hash)]
pub enum IntegerKind {
    Binary,
    Decimal,
    Hex,
}

impl IntegerKind {
    /// The radix of the notation.
    pub fn radix(&self) -> (r: u32)
        ensures
            r == match *self {
                IntegerKind::Binary => 2u32,
                IntegerKind::Decimal => 10u32,
                IntegerKind::Hex => 16u32,
            },
    {
        match self {
            IntegerKind::Binary => 2,
            IntegerKind::Decimal => 10,
            IntegerKind::Hex => 16,
        }
    }
}

/// The value of an integer literal, together with its notation.
#[derive(Clone, Copy, Debug, PartialEq, Eq, Structural, Hash)]
pub struct Integer {
    pub value: i64,
    pub kind: IntegerKind,
}

impl Integer {
    pub fn new(value: i64, kind: IntegerKind) -> (r: Self)
        ensures
            r == (Integer { value, kind }),
    {
        Integer { value, kind }
    }

    pub fn value(&self) -> (r: i64)
        ensures
            r == self.value,
    {
        self.value
    }

    pub fn kind(&self) -> (r: IntegerKind)
        ensures
            r == self.kind,
    {
        self.kind
    }
}

/// An identifier. Two identifiers are equal when they spell the same name;
/// where they were written does not matter.
#[derive(Debug)]
pub struct Ident {
    string: String,
    span: Span,
}

impl Clone for Ident {
    fn clone(&self) -> (r: Self)
        ensures
            r@ == self@,
            r.spec_span() == self.spec_span(),
    {
        Ident { string: self.string.clone(), span: self.span }
    }
}

impl View for Ident {
    type V = Seq<char>;

    closed spec fn view(&self) -> Seq<char> {
        self.string@
    }
}

impl Ident {
    pub fn new(string: String, span: Span) -> (r: Self)
        ensures
            r@ == string@,
            r.spec_span() == span,
    {
        Ident { string, span }
    }

    pub fn string(&self) -> (r: &String)
        ensures
            r@ == self@,
    {
        &self.string
    }

    /// The source location, for use in specifications.
    pub closed spec fn spec_span(&self) -> Span {
        self.span
    }
}

impl PartialEq for Ident {
    fn eq(&self, other: &Self) -> (r: bool)
        ensures
            r == (self@ == other@),
    {
        self.string == other.string
    }
}

impl Eq for Ident {

}

impl vstd::std_specs::cmp::PartialEqSpecImpl for Ident {
    open spec fn obeys_eq_spec() -> bool {
        true
    }

    open spec fn eq_spec(&self, other: &Self) -> bool {
        self@ == other@
    }
}

impl Spanned for Ident {
    fn span(&self) -> (r: Span)
        ensures
            r == self.spec_span(),
    {
        self.span
    }
}

/// An integer literal as it appeared in the source.
#[derive(Clone, Debug)]
pub struct IntegerLiteral {
    integer: Integer,
    span: Span,
}

impl IntegerLiteral {
    pub fn new(integer: Integer, span: Span) -> (r: Self)
        ensures
            r.spec_integer() == integer,
            r.spec_span() == span,
    {
        IntegerLiteral { integer, span }
    }

    pub fn integer(&self) -> (r: &Integer)
        ensures
            *r == self.spec_integer(),
    {
        &self.integer
    }

    pub closed spec fn spec_integer(&self) -> Integer {
        self.integer
    }

    pub closed spec fn spec_span(&self) -> Span {
        self.span
    }
}

impl Spanned for IntegerLiteral {
    fn span(&self) -> (r: Span)
        ensures
            r == self.spec_span(),
    {
        self.span
    }
}

/// A string literal as it appeared in the source.
#[derive(Clone, Debug)]
pub struct StringLiteral {
    string: String,
    span: Span,
}

impl StringLiteral {
    pub fn new(string: String, span: Span) -> (r: Self)
        ensures
            r@ == string@,
            r.spec_span() == span,
    {
        StringLiteral { string, span }
    }

    pub fn string(&self) -> (r: &String)
        ensures
            r@ == self@,
    {
        &self.string
    }

    pub closed spec fn spec_span(&self) -> Span {
        self.span
    }
}

impl View for StringLiteral {
    type V = Seq<char>;

    closed spec fn view(&self) -> Seq<char> {
        self.string@
    }
}

impl Spanned for StringLiteral {
    fn span(&self) -> (r: Span)
        ensures
            r == self.spec_span(),
    {
        self.span
    }
}

} // verus!
