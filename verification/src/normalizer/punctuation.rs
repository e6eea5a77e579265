//! Removal of punctuation.

use crate::normalizer::{
    rewrite_each, IntoNormalizer, Normalizer, TextNormalizer, TokenRewrite,
};
use crate::text::{strip_punctuation, without_punctuation};
use crate::token::{Token, Tokens};
use vstd::prelude::*;

verus! {

/// Every token without its ASCII punctuation characters. A token that held
/// nothing else stays, empty.
pub open spec fn strip_punctuation_all(tokens: Seq<Seq<char>>) -> Seq<Seq<char>> {
    tokens.map_values(|t: Seq<char>| strip_punctuation(t))
}

#[derive(Clone, Copy, Debug, Default)]
pub struct Punctuation;

impl Punctuation {
    pub fn new() -> (r: Self)
        ensures
            r == Punctuation,
    {
        Punctuation
    }
}

impl TextNormalizer for Punctuation {
    open spec fn normalized(&self, tokens: Seq<Seq<char>>) -> Seq<Seq<char>> {
        strip_punctuation_all(tokens)
    }

    fn normalize(&self, tokens: &mut Tokens) {
        rewrite_each(self, tokens);
        assert(tokens@ =~= strip_punctuation_all(old(tokens)@));
    }
}

impl TokenRewrite for Punctuation {
    open spec fn rewritten(&self, token: Seq<char>) -> Seq<char> {
        strip_punctuation(token)
    }

    fn rewrite(&self, token: &Token) -> (made: Token) {
        Token(without_punctuation(token.as_str()))
    }
}

impl IntoNormalizer for Punctuation {
    fn into_normalizer(self) -> (r: Normalizer) {
        Normalizer::Punctuation(self)
    }
}

/// Removing punctuation twice gives what removing it once gives.
pub proof fn lemma_strip_punctuation_all_idempotent(tokens: Seq<Seq<char>>)
    ensures
        strip_punctuation_all(strip_punctuation_all(tokens)) == strip_punctuation_all(tokens),
{
    assert forall|i: int| 0 <= i < tokens.len() implies strip_punctuation(
        strip_punctuation(tokens[i]),
    ) == strip_punctuation(tokens[i]) by {
        crate::text::lemma_strip_punctuation_idempotent(tokens[i]);
    }
    assert(strip_punctuation_all(strip_punctuation_all(tokens)) =~= strip_punctuation_all(tokens));
}

} // verus!
