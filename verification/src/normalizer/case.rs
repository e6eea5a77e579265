//! Case folding.

use crate::normalizer::{
    rewrite_each, IntoNormalizer, Normalizer, TextNormalizer, TokenRewrite,
};
use crate::text::{ascii_lowercase, ascii_uppercase, lowercase, uppercase};
use crate::token::{Token, Tokens};
use vstd::prelude::*;

verus! {

/// Every token with its ASCII capital letters made small.
pub open spec fn lowercase_all(tokens: Seq<Seq<char>>) -> Seq<Seq<char>> {
    tokens.map_values(|t: Seq<char>| lowercase(t))
}

/// Every token with its ASCII small letters made capital.
pub open spec fn uppercase_all(tokens: Seq<Seq<char>>) -> Seq<Seq<char>> {
    tokens.map_values(|t: Seq<char>| uppercase(t))
}

#[derive(Clone, Copy, Debug, Default)]
pub struct Lowercase;

impl Lowercase {
    pub fn new() -> (r: Self)
        ensures
            r == Lowercase,
    {
        Lowercase
    }
}

impl TextNormalizer for Lowercase {
    open spec fn normalized(&self, tokens: Seq<Seq<char>>) -> Seq<Seq<char>> {
        lowercase_all(tokens)
    }

    fn normalize(&self, tokens: &mut Tokens) {
        rewrite_each(self, tokens);
        assert(tokens@ =~= lowercase_all(old(tokens)@));
    }
}

impl TokenRewrite for Lowercase {
    open spec fn rewritten(&self, token: Seq<char>) -> Seq<char> {
        lowercase(token)
    }

    fn rewrite(&self, token: &Token) -> (made: Token) {
        Token(ascii_lowercase(token.as_str()))
    }
}

impl IntoNormalizer for Lowercase {
    fn into_normalizer(self) -> (r: Normalizer) {
        Normalizer::Lowercase(self)
    }
}

#[derive(Clone, Copy, Debug, Default)]
pub struct Uppercase;

impl Uppercase {
    pub fn new() -> (r: Self)
        ensures
            r == Uppercase,
    {
        Uppercase
    }
}

impl TextNormalizer for Uppercase {
    open spec fn normalized(&self, tokens: Seq<Seq<char>>) -> Seq<Seq<char>> {
        uppercase_all(tokens)
    }

    fn normalize(&self, tokens: &mut Tokens) {
        rewrite_each(self, tokens);
        assert(tokens@ =~= uppercase_all(old(tokens)@));
    }
}

impl TokenRewrite for Uppercase {
    open spec fn rewritten(&self, token: Seq<char>) -> Seq<char> {
        uppercase(token)
    }

    fn rewrite(&self, token: &Token) -> (made: Token) {
        Token(ascii_uppercase(token.as_str()))
    }
}

impl IntoNormalizer for Uppercase {
    fn into_normalizer(self) -> (r: Normalizer) {
        Normalizer::Uppercase(self)
    }
}

/// Lower-casing a token sequence twice gives what lower-casing it once
/// gives.
pub proof fn lemma_lowercase_all_idempotent(tokens: Seq<Seq<char>>)
    ensures
        lowercase_all(lowercase_all(tokens)) == lowercase_all(tokens),
{
    assert forall|i: int| 0 <= i < tokens.len() implies lowercase(lowercase(tokens[i]))
        == lowercase(tokens[i]) by {
        crate::text::lemma_lowercase_idempotent(tokens[i]);
    }
    assert(lowercase_all(lowercase_all(tokens)) =~= lowercase_all(tokens));
}

/// Upper-casing a token sequence twice gives what upper-casing it once
/// gives.
pub proof fn lemma_uppercase_all_idempotent(tokens: Seq<Seq<char>>)
    ensures
        uppercase_all(uppercase_all(tokens)) == uppercase_all(tokens),
{
    assert forall|i: int| 0 <= i < tokens.len() implies uppercase(uppercase(tokens[i]))
        == uppercase(tokens[i]) by {
        crate::text::lemma_uppercase_idempotent(tokens[i]);
    }
    assert(uppercase_all(uppercase_all(tokens)) =~= uppercase_all(tokens));
}

} // verus!
