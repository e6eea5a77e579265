//! The text of a query.

use crate::token::Tokens;
use crate::tokenizer::Tokenizer;
use vstd::prelude::*;

verus! {

/// A text to be searched for. Its view is its characters.
#[derive(Debug)]
pub struct Query<'a>(pub &'a str);

impl<'a> View for Query<'a> {
    type V = Seq<char>;

    open spec fn view(&self) -> Seq<char> {
        self.0@
    }
}

impl<'a> Query<'a> {
    pub fn new(value: &'a str) -> (r: Self)
        ensures
            r@ == value@,
    {
        Query(value)
    }

    /// The tokens that `tokenizer` makes of the text.
    pub fn tokenize(&self, tokenizer: &mut Tokenizer) -> (out: Tokens)
        ensures
            out@ == old(tokenizer).tokens(self@),
            *final(tokenizer) == *old(tokenizer),
    {
        tokenizer.tokenize(self.0)
    }
}

} // verus!
