//! Filters of token sequences.

use crate::token::Tokens;
use vstd::prelude::*;

verus! {

/// What a filter is: a rewrite of a token sequence, in place, by something
/// that may change with each use.
pub trait TextFilter: Sized {
    /// Whether this filter may turn `before` into `after` and itself into
    /// `next`.
    spec fn filters(&self, before: Seq<Seq<char>>, after: Seq<Seq<char>>, next: &Self) -> bool;

    fn filter(&mut self, tokens: &mut Tokens)
        ensures
            old(self).filters(old(tokens)@, final(tokens)@, final(self)),
    ;
}

/// One filter.
pub struct Filter<T: TextFilter>(pub T);

impl<T: TextFilter> Filter<T> {
    pub fn new(kind: T) -> (r: Self)
        ensures
            r.0 == kind,
    {
        Filter(kind)
    }

    pub fn filter(&mut self, tokens: &mut Tokens)
        ensures
            old(self).0.filters(old(tokens)@, final(tokens)@, &final(self).0),
    {
        self.0.filter(tokens);
    }
}

/// An ordered list of filters. Its view is the list.
pub struct FilterPipeline<T: TextFilter>(pub Vec<T>);

impl<T: TextFilter> View for FilterPipeline<T> {
    type V = Seq<T>;

    open spec fn view(&self) -> Seq<T> {
        self.0@
    }
}

impl<T: TextFilter> FilterPipeline<T> {
    pub fn new() -> (r: Self)
        ensures
            r@.len() == 0,
    {
        FilterPipeline(Vec::new())
    }

    /// Adds `filter` as the last of the list.
    pub fn insert(&mut self, filter: T)
        ensures
            final(self)@ == old(self)@.push(filter),
    {
        self.0.push(filter);
    }
}

} // verus!
