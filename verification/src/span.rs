use vstd::prelude::*;

use crate::source::SourceId;

verus! {

/// A byte range inside one source text.
#[derive(Clone, Copy, Debug, PartialEq, Eq, Structural)]
pub struct Span {
    /// Source the range lies in.
    pub source: SourceId,
    /// Byte index of the start of the range.
    pub index: usize,
    /// Length of the range in bytes.
    pub length: usize,
}

impl Span {
    /// True when the end of the range fits in the address space.
    pub open spec fn wf(&self) -> bool {
        self.index + self.length <= usize::MAX
    }

    pub fn new(source: SourceId, index: usize, length: usize) -> (r: Self)
        ensures
            r == (Span { source, index, length }),
    {
        Span { source, index, length }
    }

    pub fn source(&self) -> (r: SourceId)
        ensures
            r == self.source,
    {
        self.source
    }

    pub fn index(&self) -> (r: usize)
        ensures
            r == self.index,
    {
        self.index
    }

    pub fn length(&self) -> (r: usize)
        ensures
            r == self.length,
    {
        self.length
    }

    /// Byte index one past the end of the range.
    pub fn end(&self) -> (r: usize)
        requires
            self.wf(),
        ensures
            r == self.index + self.length,
    {
        self.index + self.length
    }

    /// The span that stands for "no location".
    pub fn null() -> (r: Self)
        ensures
            r == (Span { source: SourceId(0), index: 0, length: 0 }),
            r.wf(),
    {
        Span { source: SourceId::null(), index: 0, length: 0 }
    }

    /// The smallest range covering both `self` and `rhs`, attributed to
    /// `self`'s source.
    pub fn merge(self, rhs: Self) -> (r: Self)
        requires
            self.wf(),
            rhs.wf(),
        ensures
            r.source == self.source,
            r.index == if self.index <= rhs.index {
                self.index
            } else {
                rhs.index
            },
            r.index + r.length == if self.index + self.length >= rhs.index + rhs.length {
                self.index + self.length
            } else {
                rhs.index + rhs.length
            },
            r.wf(),
    {
        let index = if self.index <= rhs.index {
            self.index
        } else {
            rhs.index
        };
        let self_end = self.end();
        let rhs_end = rhs.end();
        let end = if self_end >= rhs_end {
            self_end
        } else {
            rhs_end
        };
        Span { source: self.source, index, length: end - index }
    }
}

/// Syntax elements that carry a source location.
pub trait Spanned {
    fn span(&self) -> Span;
}

impl Spanned for Span {
    fn span(&self) -> (r: Span)
        ensures
            r == *self,
    {
        *self
    }
}

} // verus!
