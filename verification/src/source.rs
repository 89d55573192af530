use vstd::prelude::*;

verus! {

/// Identifies one source text among the inputs of a compilation.
#[derive(Clone, Copy, Debug, PartialEq, Eq, Structural, Hash)]
pub struct SourceId(pub usize);

impl SourceId {
    /// The id that stands for "no source", used by synthetic spans.
    pub fn null() -> (r: Self)
        ensures
            r == (SourceId(0)),
    {
        SourceId(0)
    }
}

/// One source text. Loading sources is the driver's business, not this
/// crate's, so nothing is recorded here yet.
pub struct Source {}

/// The table of source texts of one compilation.
pub struct Sources {}

} // verus!
