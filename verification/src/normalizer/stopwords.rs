//! Removal of stop words.

use crate::normalizer::{IntoNormalizer, Normalizer, TextNormalizer};
use crate::text::{ascii_lowercase, lowercase};
use crate::token::{kept, Token, TokenTest, Tokens};
use crate::tokenizer::{pieces, split_text, Separator};
use vstd::hash_set::StringHashSet;
use vstd::prelude::*;

verus! {

/// The tokens whose lower-cased text is not in `words`, unchanged and in
/// their order.
pub open spec fn without_stopwords(tokens: Seq<Seq<char>>, words: Set<Seq<char>>) -> Seq<
    Seq<char>,
> {
    tokens.filter(|t: Seq<char>| !words.contains(lowercase(t)))
}

/// The set that holds the first `n` of `words`.
pub open spec fn word_set(words: Seq<String>, n: int) -> Set<Seq<char>> {
    Set::new(|w: Seq<char>| exists|k: int| 0 <= k < n && k < words.len() && words[k]@ == w)
}

/// A set of stop words. Its view is the set of their texts.
pub struct Stopwords {
    words: StringHashSet,
}

impl View for Stopwords {
    type V = Set<Seq<char>>;

    closed spec fn view(&self) -> Set<Seq<char>> {
        self.words@
    }
}

impl Stopwords {
    /// The set of the given words.
    pub fn new(words: Vec<String>) -> (r: Self)
        ensures
            r@ == word_set(words@, words@.len() as int),
    {
        let mut set = StringHashSet::new();
        let mut i: usize = 0;
        assert(set@ =~= word_set(words@, 0));
        while i < words.len()
            invariant
                i <= words.len(),
                set@ == word_set(words@, i as int),
            decreases words.len() - i,
        {
            let word = words[i].clone();
            set.insert(word);
            proof {
                assert(words@[i as int]@ == word@);
                assert(set@ =~= word_set(words@, i + 1));
            }
            i += 1;
        }
        Stopwords { words: set }
    }

    /// The set of the words of `text`, one word on a line. Blank lines are
    /// passed over.
    pub fn from_lines(text: &str) -> (r: Self)
        ensures
            r@ == pieces(text@, Separator::LineBreak).to_set(),
    {
        let lines = split_text(text, Separator::LineBreak);
        let mut set = StringHashSet::new();
        let mut i: usize = 0;
        assert(set@ =~= lines@.take(0).to_set());
        while i < lines.0.len()
            invariant
                i <= lines.0.len(),
                set@ == lines@.take(i as int).to_set(),
            decreases lines.0.len() - i,
        {
            let word = lines.0[i].0.clone();
            set.insert(word);
            proof {
                let seen = lines@.take(i as int);
                assert(lines@.take(i + 1) == seen.push(lines@[i as int]));
                assert forall|w: Seq<char>| seen.push(lines@[i as int]).to_set().contains(w)
                    == seen.to_set().insert(lines@[i as int]).contains(w) by {
                    crate::state::lemma_contains_push(seen, lines@[i as int], w);
                }
                assert(seen.push(lines@[i as int]).to_set() =~= seen.to_set().insert(
                    lines@[i as int],
                ));
            }
            i += 1;
        }
        assert(lines@.take(i as int) == lines@);
        Stopwords { words: set }
    }

    /// Adds one word.
    pub fn insert(&mut self, word: String)
        ensures
            final(self)@ == old(self)@.insert(word@),
    {
        self.words.insert(word);
    }

    /// Whether the lower-cased text of `token` is a stop word.
    pub fn is_stopword(&self, token: &Token) -> (r: bool)
        ensures
            r == self@.contains(lowercase(token@)),
    {
        let lowered = ascii_lowercase(token.as_str());
        self.words.contains(lowered.as_str())
    }
}

impl TextNormalizer for Stopwords {
    open spec fn normalized(&self, tokens: Seq<Seq<char>>) -> Seq<Seq<char>> {
        without_stopwords(tokens, self@)
    }

    fn normalize(&self, tokens: &mut Tokens) {
        tokens.keep_each(self);
        assert(kept(self, old(tokens)@) =~= without_stopwords(old(tokens)@, self@)) by {
            assert((|t: Seq<char>| self.passes(t)) =~= (|t: Seq<char>|
                !self@.contains(lowercase(t))));
        }
    }
}

impl TokenTest for Stopwords {
    /// A token passes that is no stop word.
    open spec fn passes(&self, token: Seq<char>) -> bool {
        !self@.contains(lowercase(token))
    }

    fn test(&self, token: &Token) -> (r: bool) {
        !self.is_stopword(token)
    }
}

impl IntoNormalizer for Stopwords {
    fn into_normalizer(self) -> (r: Normalizer) {
        Normalizer::Stopwords(self)
    }
}

/// Of tokens that are all stop words none is left.
pub proof fn lemma_all_stopwords(tokens: Seq<Seq<char>>, words: Set<Seq<char>>)
    requires
        forall|i: int| 0 <= i < tokens.len() ==> words.contains(lowercase(#[trigger] tokens[i])),
    ensures
        without_stopwords(tokens, words) == Seq::<Seq<char>>::empty(),
    decreases tokens.len(),
{
    reveal(Seq::filter);
    if tokens.len() > 0 {
        let front = tokens.drop_last();
        assert forall|i: int| 0 <= i < front.len() implies words.contains(
            lowercase(#[trigger] front[i]),
        ) by {
            assert(front[i] == tokens[i]);
        }
        lemma_all_stopwords(front, words);
        assert(tokens.last() == tokens[tokens.len() - 1]);
    }
}

/// Among tokens that are no stop words there is none to remove.
pub proof fn lemma_without_stopwords_idempotent(tokens: Seq<Seq<char>>, words: Set<Seq<char>>)
    ensures
        without_stopwords(without_stopwords(tokens, words), words) == without_stopwords(
            tokens,
            words,
        ),
    decreases tokens.len(),
{
    reveal(Seq::filter);
    if tokens.len() > 0 {
        lemma_without_stopwords_idempotent(tokens.drop_last(), words);
        let sub = without_stopwords(tokens.drop_last(), words);
        if !words.contains(lowercase(tokens.last())) {
            assert(sub.push(tokens.last()).drop_last() == sub);
        }
    }
}

} // verus!
