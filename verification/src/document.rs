//! The text of a document.

use crate::token::Tokens;
use crate::tokenizer::Tokenizer;
use vstd::prelude::*;

verus! {

/// A text to be indexed. Its view is its characters.
#[derive(Debug)]
pub struct Document(pub String);

impl View for Document {
    type V = Seq<char>;

    open spec fn view(&self) -> Seq<char> {
        self.0@
    }
}

impl Document {
    pub fn new(text: String) -> (r: Self)
        ensures
            r@ == text@,
    {
        Document(text)
    }

    pub fn inner(&self) -> (s: &String)
        ensures
            s@ == self@,
    {
        &self.0
    }

    pub fn inner_mut(&mut self) -> (s: &mut String)
        ensures
            s@ == old(self)@,
            final(self)@ == final(s)@,
    {
        &mut self.0
    }

    /// The tokens that `tokenizer` makes of the text.
    pub fn tokenize(&self, tokenizer: &mut Tokenizer) -> (out: Tokens)
        ensures
            out@ == old(tokenizer).tokens(self@),
            *final(tokenizer) == *old(tokenizer),
    {
        tokenizer.tokenize(self.0.as_str())
    }
}

impl From<String> for Document {
    fn from(buffer: String) -> (r: Document) {
        Document(buffer)
    }
}

impl vstd::std_specs::convert::FromSpecImpl<String> for Document {
    open spec fn obeys_from_spec() -> bool {
        true
    }

    open spec fn from_spec(buffer: String) -> Document {
        Document(buffer)
    }
}

} // verus!
