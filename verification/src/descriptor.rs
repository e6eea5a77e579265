//! A resource with the text under which it is indexed.

use crate::document::Document;
use crate::token::Tokens;
use crate::tokenizer::Tokenizer;
use vstd::prelude::*;

verus! {

/// A resource with the text under which it is indexed.
pub struct Descriptor<R: Clone> {
    pub document: Document,
    pub resource: R,
}

impl<R: Clone> Descriptor<R> {
    pub fn new(resource: R, document: Document) -> (r: Self)
        ensures
            r.resource == resource,
            r.document == document,
    {
        Descriptor { resource, document }
    }

    pub fn inner(&self) -> (d: &Document)
        ensures
            *d == self.document,
    {
        &self.document
    }

    /// A copy of the resource.
    pub fn resource(&self) -> (r: R)
        ensures
            cloned(self.resource, r),
    {
        self.resource.clone()
    }

    /// The resource and the text themselves.
    pub fn into_parts(self) -> (r: (R, Document))
        ensures
            r.0 == self.resource,
            r.1 == self.document,
    {
        (self.resource, self.document)
    }

    /// The tokens that `tokenizer` makes of the text.
    pub fn tokenize(&self, tokenizer: &mut Tokenizer) -> (out: Tokens)
        ensures
            out@ == old(tokenizer).tokens(self.document@),
            *final(tokenizer) == *old(tokenizer),
    {
        self.document.tokenize(tokenizer)
    }
}

} // verus!
