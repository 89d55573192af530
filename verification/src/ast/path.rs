use vstd::prelude::*;

use crate::ast::punctuated::Punctuated;
use crate::ast::token::{ColonColon, Ident};

verus! {

/// One segment of a module path: `super`, or a name.
#[derive(Clone, Debug)]
pub enum PathSegment {
    Super,
    Ident(Ident),
}

/// A source-level path: an optional leading `::` (an absolute path starts at
/// the root module) followed by `::`-separated segments. The final segment
/// names a variable, function or module, depending on the consumer; the
/// segments before it name modules.
#[derive(Clone, Debug)]
pub struct Path {
    pub absolute: Option<ColonColon>,
    pub segments: Punctuated<PathSegment, ColonColon>,
}

impl Path {
    /// The segments, for use in specifications.
    pub open spec fn spec_segments(&self) -> Seq<PathSegment> {
        self.segments.spec_items()
    }

    /// The segments before the final one: those that name modules.
    pub open spec fn spec_module_segments(&self) -> Seq<PathSegment> {
        if self.spec_segments().len() == 0 {
            Seq::empty()
        } else {
            self.spec_segments().take(self.spec_segments().len() - 1)
        }
    }

    /// A relative path with no segments yet.
    pub fn empty() -> (r: Self)
        ensures
            r.absolute is None,
            r.spec_segments() == Seq::<PathSegment>::empty(),
    {
        Path { absolute: None, segments: Punctuated::new() }
    }

    /// An absolute path with no segments yet.
    pub fn absolute() -> (r: Self)
        ensures
            r.absolute is Some,
            r.spec_segments() == Seq::<PathSegment>::empty(),
    {
        Path { absolute: Some(ColonColon), segments: Punctuated::new() }
    }

    pub fn is_absolute(&self) -> (r: bool)
        ensures
            r == (self.absolute is Some),
    {
        self.absolute.is_some()
    }

    /// The single identifier this path consists of, when it is one bare name.
    pub fn as_ident(&self) -> (r: Option<&Ident>)
        ensures
            match r {
                Some(ident) => self.spec_segments().len() == 1 && self.spec_segments()[0]
                    == (PathSegment::Ident(*ident)),
                None => self.spec_segments().len() != 1 || !(self.spec_segments()[0] is Ident),
            },
    {
        if self.segments.len() == 1 {
            match self.segments.get(0) {
                PathSegment::Ident(ident) => Some(ident),
                PathSegment::Super => None,
            }
        } else {
            None
        }
    }

    /// The final segment, when it is a name.
    pub fn get_ident(&self) -> (r: Option<&Ident>)
        ensures
            match r {
                Some(ident) => self.spec_segments().len() > 0 && self.spec_segments().last()
                    == (PathSegment::Ident(*ident)),
                None => self.spec_segments().len() == 0 || !(self.spec_segments().last() is Ident),
            },
    {
        match self.segments.last() {
            Some(PathSegment::Ident(ident)) => Some(ident),
            _ => None,
        }
    }

    pub fn push_ident(&mut self, ident: Ident)
        ensures
            final(self).absolute == old(self).absolute,
            final(self).spec_segments() == old(self).spec_segments().push(
                PathSegment::Ident(ident),
            ),
    {
        self.push_segment(PathSegment::Ident(ident));
    }

    pub fn push_segment(&mut self, segment: PathSegment)
        ensures
            final(self).absolute == old(self).absolute,
            final(self).spec_segments() == old(self).spec_segments().push(segment),
    {
        self.segments.push(segment, ColonColon);
    }

    /// The module segments of the path, in order.
    pub fn iter_modules(&self) -> (r: Vec<&PathSegment>)
        ensures
            r@.len() == self.spec_module_segments().len(),
            forall|i: int|
                0 <= i < r@.len() ==> *r@[i] == self.spec_module_segments()[i],
    {
        let items = self.segments.iter();
        let mut modules: Vec<&PathSegment> = Vec::new();
        let end = if items.len() == 0 {
            0
        } else {
            items.len() - 1
        };
        let mut i: usize = 0;
        while i < end
            invariant
                end <= items@.len(),
                end == self.spec_module_segments().len(),
                items@ == self.spec_segments(),
                i <= end,
                modules@.len() == i,
                forall|j: int| 0 <= j < i ==> *modules@[j] == self.spec_module_segments()[j],
            decreases end - i,
        {
            modules.push(&items[i]);
            i += 1;
        }
        modules
    }
}

} // verus!
