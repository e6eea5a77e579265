//! Replacement of whole tokens.

use crate::normalizer::{
    rewrite_each, IntoNormalizer, Normalizer, TextNormalizer, TokenRewrite,
};
use crate::token::{Token, Tokens};
use vstd::hash_map::StringHashMap;
use vstd::prelude::*;

verus! {

/// `token`, or what `pairs` maps it to.
pub open spec fn replace_one(token: Seq<char>, pairs: Map<Seq<char>, Seq<char>>) -> Seq<char> {
    if pairs.contains_key(token) {
        pairs[token]
    } else {
        token
    }
}

/// Every token that is a key of `pairs` replaced by the value of that key.
pub open spec fn replace_all(tokens: Seq<Seq<char>>, pairs: Map<Seq<char>, Seq<char>>) -> Seq<
    Seq<char>,
> {
    tokens.map_values(|t: Seq<char>| replace_one(t, pairs))
}

/// The mapping that the first `n` of `pairs` make, a later pair overriding an
/// earlier one with the same key.
pub open spec fn pair_map(pairs: Seq<(String, String)>, n: int) -> Map<Seq<char>, Seq<char>>
    decreases n,
{
    if n <= 0 || n > pairs.len() {
        Map::empty()
    } else {
        pair_map(pairs, n - 1).insert(pairs[n - 1].0@, pairs[n - 1].1@)
    }
}

/// A mapping from tokens to their replacements. Its view maps the text of a
/// key to the text of its value.
pub struct TokenReplacer {
    pairs: StringHashMap<String>,
}

impl View for TokenReplacer {
    type V = Map<Seq<char>, Seq<char>>;

    closed spec fn view(&self) -> Map<Seq<char>, Seq<char>> {
        self.pairs@.map_values(|v: String| v@)
    }
}

impl TokenReplacer {
    /// The mapping of the given pairs.
    pub fn new(pairs: Vec<(String, String)>) -> (r: Self)
        ensures
            r@ == pair_map(pairs@, pairs@.len() as int),
    {
        let mut map: StringHashMap<String> = StringHashMap::new();
        let mut i: usize = 0;
        assert(map@.map_values(|v: String| v@) =~= pair_map(pairs@, 0));
        while i < pairs.len()
            invariant
                i <= pairs.len(),
                map@.map_values(|v: String| v@) == pair_map(pairs@, i as int),
            decreases pairs.len() - i,
        {
            let key = pairs[i].0.clone();
            let value = pairs[i].1.clone();
            let ghost before = map@;
            map.insert(key, value);
            proof {
                assert(map@.map_values(|v: String| v@) =~= before.map_values(|v: String| v@).insert(
                    key@,
                    value@,
                ));
            }
            i += 1;
        }
        TokenReplacer { pairs: map }
    }

    /// Maps `key` to `value` from now on.
    pub fn insert(&mut self, key: String, value: String)
        ensures
            final(self)@ == old(self)@.insert(key@, value@),
    {
        self.pairs.insert(key, value);
        assert(self@ =~= old(self)@.insert(key@, value@));
    }

    /// Maps `key` to nothing from now on.
    pub fn remove(&mut self, key: &str)
        ensures
            final(self)@ == old(self)@.remove(key@),
    {
        self.pairs.remove(key);
        assert(self@ =~= old(self)@.remove(key@));
    }

    /// The replacement of `token`, or a copy of it.
    pub fn replacement(&self, token: &Token) -> (r: Token)
        ensures
            r@ == replace_one(token@, self@),
    {
        match self.pairs.get(token.as_str()) {
            Some(value) => Token(value.clone()),
            None => Token(token.0.clone()),
        }
    }
}

impl TextNormalizer for TokenReplacer {
    open spec fn normalized(&self, tokens: Seq<Seq<char>>) -> Seq<Seq<char>> {
        replace_all(tokens, self@)
    }

    fn normalize(&self, tokens: &mut Tokens) {
        rewrite_each(self, tokens);
        assert(tokens@ =~= replace_all(old(tokens)@, self@));
    }
}

impl TokenRewrite for TokenReplacer {
    open spec fn rewritten(&self, token: Seq<char>) -> Seq<char> {
        replace_one(token, self@)
    }

    fn rewrite(&self, token: &Token) -> (made: Token) {
        self.replacement(token)
    }
}

impl IntoNormalizer for TokenReplacer {
    fn into_normalizer(self) -> (r: Normalizer) {
        Normalizer::Replacer(self)
    }
}

} // verus!
