use vstd::prelude::*;

verus! {

/// A list of items separated by punctuation, as written in the source. The
/// punctuation is kept so that a syntax tree can be reprinted faithfully; the
/// compiler itself only reads the items.
#[derive(Clone, Debug)]
pub struct Punctuated<T, U> {
    pub(crate) items: Vec<T>,
    pub(crate) punct: Vec<U>,
}

impl<T, U> Punctuated<T, U> {
    /// The items, for use in specifications.
    pub closed spec fn spec_items(&self) -> Seq<T> {
        self.items@
    }

    /// The punctuation, for use in specifications.
    pub closed spec fn spec_punct(&self) -> Seq<U> {
        self.punct@
    }

    pub fn new() -> (r: Self)
        ensures
            r.spec_items() == Seq::<T>::empty(),
            r.spec_punct() == Seq::<U>::empty(),
    {
        Punctuated { items: Vec::new(), punct: Vec::new() }
    }

    pub fn push(&mut self, item: T, punct: U)
        ensures
            final(self).spec_items() == old(self).spec_items().push(item),
            final(self).spec_punct() == old(self).spec_punct().push(punct),
    {
        self.items.push(item);
        self.punct.push(punct);
    }

    pub fn len(&self) -> (r: usize)
        ensures
            r == self.spec_items().len(),
    {
        self.items.len()
    }

    pub fn last(&self) -> (r: Option<&T>)
        ensures
            match r {
                Some(item) => self.spec_items().len() > 0 && *item == self.spec_items().last(),
                None => self.spec_items().len() == 0,
            },
    {
        if self.items.len() == 0 {
            None
        } else {
            Some(&self.items[self.items.len() - 1])
        }
    }

    /// The items in order.
    pub fn iter(&self) -> (r: &Vec<T>)
        ensures
            r@ == self.spec_items(),
    {
        &self.items
    }

    /// The punctuation in order.
    pub fn iter_punct(&self) -> (r: &Vec<U>)
        ensures
            r@ == self.spec_punct(),
    {
        &self.punct
    }

    /// The item at `index`.
    pub fn get(&self, index: usize) -> (r: &T)
        requires
            index < self.spec_items().len(),
        ensures
            *r == self.spec_items()[index as int],
    {
        &self.items[index]
    }
}

/// The items of a punctuated list sit below the list itself in the
/// well-founded order that recursion over the syntax tree descends along.
pub broadcast proof fn lemma_punctuated_decreases_to_items<T, U>(p: Punctuated<T, U>)
    ensures
        #[trigger] (decreases_to!(p => p.spec_items())),
{
    broadcast use vstd::std_specs::vec::axiom_vec_decreases_to_view;

    assert(decreases_to!(p => p.items));
    assert(decreases_to!(p.items => p.items@));
}

} // verus!
