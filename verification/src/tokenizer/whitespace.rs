//! The tokenizer that cuts at runs of Unicode whitespace.

use crate::token::Tokens;
use crate::tokenizer::{pieces, split_text, Separator, TextTokenizer};
use vstd::prelude::*;

verus! {

/// The tokens of `text` under Unicode whitespace.
pub open spec fn whitespace_tokens(text: Seq<char>) -> Seq<Seq<char>> {
    pieces(text, Separator::Whitespace)
}

#[derive(Clone, Copy, Debug, Default)]
pub struct Whitespace;

impl Whitespace {
    pub fn new() -> (r: Self)
        ensures
            r == Whitespace,
    {
        Whitespace
    }
}

impl TextTokenizer for Whitespace {
    open spec fn tokens(&self, text: Seq<char>) -> Seq<Seq<char>> {
        whitespace_tokens(text)
    }

    fn tokenize(&mut self, text: &str) -> (out: Tokens) {
        split_text(text, Separator::Whitespace)
    }
}

} // verus!
