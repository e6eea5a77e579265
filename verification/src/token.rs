//! Tokens and token sequences.

use vstd::prelude::*;
use vstd::std_specs::iter::IteratorSpec;

verus! {

/// An owned piece of text. Its view is its characters.
#[derive(Debug, Default, Hash, Eq, PartialEq)]
pub struct Token(pub String);

impl View for Token {
    type V = Seq<char>;

    open spec fn view(&self) -> Seq<char> {
        self.0@
    }
}

impl Token {
    pub fn inner(self) -> (s: String)
        ensures
            s@ == self@,
    {
        self.0
    }

    pub fn inner_ref(&self) -> (s: &String)
        ensures
            s@ == self@,
    {
        &self.0
    }

    pub fn inner_mut(&mut self) -> (s: &mut String)
        ensures
            s@ == old(self)@,
            final(self)@ == final(s)@,
    {
        &mut self.0
    }

    pub fn as_str(&self) -> (s: &str)
        ensures
            s@ == self@,
    {
        self.0.as_str()
    }

    /// True when the two tokens hold the same text.
    pub fn same_text(&self, other: &Token) -> (r: bool)
        ensures
            r == (self@ == other@),
    {
        self.0 == other.0
    }
}

impl From<String> for Token {
    fn from(value: String) -> (r: Token) {
        Token(value)
    }
}

impl vstd::std_specs::convert::FromSpecImpl<String> for Token {
    open spec fn obeys_from_spec() -> bool {
        true
    }

    open spec fn from_spec(value: String) -> Token {
        Token(value)
    }
}

impl<'a> From<&'a str> for Token {
    fn from(value: &'a str) -> (r: Token)
        ensures
            r@ == value@,
    {
        Token(value.to_owned())
    }
}

impl<'a> vstd::std_specs::convert::FromSpecImpl<&'a str> for Token {
    /// No token is named in specifications as the image of a string slice:
    /// `from` states the text of its result itself.
    open spec fn obeys_from_spec() -> bool {
        false
    }

    open spec fn from_spec(value: &'a str) -> Token {
        arbitrary()
    }
}

/// The texts of a sequence of tokens.
pub open spec fn texts(tokens: Seq<Token>) -> Seq<Seq<char>> {
    tokens.map_values(|t: Token| t@)
}

/// An ordered sequence of tokens. Its view is the sequence of their texts.
#[derive(Debug, PartialEq)]
pub struct TokenVec(pub Vec<Token>);

pub type Tokens = TokenVec;

impl View for TokenVec {
    type V = Seq<Seq<char>>;

    open spec fn view(&self) -> Seq<Seq<char>> {
        texts(self.0@)
    }
}

/// A test of one token at a time.
pub trait TokenTest {
    /// Whether the text `token` passes.
    spec fn passes(&self, token: Seq<char>) -> bool;

    fn test(&self, token: &Token) -> (r: bool)
        ensures
            r == self.passes(token@),
    ;
}

/// The tokens of `tokens` that pass `test`, in their order.
pub open spec fn kept<T: TokenTest>(test: &T, tokens: Seq<Seq<char>>) -> Seq<Seq<char>> {
    tokens.filter(|t: Seq<char>| test.passes(t))
}

/// The test that a token has text.
pub struct HasText;

impl TokenTest for HasText {
    open spec fn passes(&self, token: Seq<char>) -> bool {
        token.len() > 0
    }

    fn test(&self, token: &Token) -> (r: bool) {
        !token.0.as_str().is_empty()
    }
}

/// The tokens of `tokens` that have text, in their order.
pub open spec fn non_empty(tokens: Seq<Seq<char>>) -> Seq<Seq<char>> {
    tokens.filter(|t: Seq<char>| t.len() > 0)
}

/// The items of `items` whose place in `keep` says `true`, in their order.
pub open spec fn select(items: Seq<Token>, keep: Seq<bool>) -> Seq<Token>
    decreases items.len(),
{
    if items.len() == 0 || keep.len() != items.len() {
        Seq::empty()
    } else if keep.last() {
        select(items.drop_last(), keep.drop_last()).push(items.last())
    } else {
        select(items.drop_last(), keep.drop_last())
    }
}

/// How often `term` occurs in `tokens`.
pub open spec fn occurrences(tokens: Seq<Seq<char>>, term: Seq<char>) -> nat {
    tokens.filter(|t: Seq<char>| t == term).len()
}

impl TokenVec {
    pub fn new() -> (r: Self)
        ensures
            r@ == Seq::<Seq<char>>::empty(),
    {
        let r = TokenVec(Vec::new());
        assert(r@ =~= Seq::<Seq<char>>::empty());
        r
    }

    pub fn push(&mut self, item: Token)
        ensures
            final(self)@ == old(self)@.push(item@),
    {
        self.0.push(item);
        assert(self@ =~= old(self)@.push(item@));
    }

    pub fn is_empty(&self) -> (r: bool)
        ensures
            r == (self@.len() == 0),
    {
        self.0.is_empty()
    }

    pub fn count(&self) -> (n: usize)
        ensures
            n == self@.len(),
    {
        self.0.len()
    }

    /// The token at position `i`.
    pub fn get(&self, i: usize) -> (r: Option<&Token>)
        ensures
            i < self@.len() ==> r is Some && r->0@ == self@[i as int],
            i >= self@.len() ==> r is None,
    {
        if i < self.0.len() {
            Some(&self.0[i])
        } else {
            None
        }
    }

    /// The tokens from the first to the last.
    pub fn iter(&self) -> (it: std::slice::Iter<'_, Token>)
        ensures
            it.remaining() == self.0@.as_ref(),
            it.decrease() is Some,
            it.initial_value_relation(&it),
    {
        self.0.as_slice().iter()
    }

    /// The token at position `i`, to be changed in place.
    pub fn get_mut(&mut self, i: usize) -> (r: &mut Token)
        requires
            i < old(self)@.len(),
        ensures
            *r == old(self).0@[i as int],
            final(self).0@ == old(self).0@.update(i as int, *final(r)),
    {
        &mut self.0[i]
    }

    /// Puts in the place of each token what `f` makes of it.
    pub fn for_each_mut<F: Fn(Token) -> Token>(&mut self, f: F)
        requires
            forall|t: Token| f.requires((t,)),
        ensures
            final(self).0@.len() == old(self).0@.len(),
            forall|i: int|
                0 <= i < old(self).0@.len() ==> f.ensures(
                    (old(self).0@[i],),
                    #[trigger] final(self).0@[i],
                ),
    {
        let mut items: Vec<Token> = Vec::new();
        core::mem::swap(&mut items, &mut self.0);
        let ghost all = items@;
        let mut out: Vec<Token> = Vec::new();
        for token in it: items
            invariant
                all == old(self).0@,
                it.seq() == all,
                out@.len() == it.index(),
                forall|t: Token| f.requires((t,)),
                forall|k: int| 0 <= k < out@.len() ==> f.ensures((all[k],), #[trigger] out@[k]),
        {
            let made = f(token);
            out.push(made);
        }
        self.0 = out;
    }

    /// Keeps the tokens of which `f` says `true`, in their order.
    pub fn retain_mut<F: Fn(&Token) -> bool>(&mut self, f: F)
        requires
            forall|t: &Token| f.requires((t,)),
        ensures
            exists|keep: Seq<bool>|
                keep.len() == old(self).0@.len() && final(self).0@ == select(old(self).0@, keep)
                    && forall|i: int|
                    0 <= i < keep.len() ==> f.ensures((&old(self).0@[i],), #[trigger] keep[i]),
    {
        let mut items: Vec<Token> = Vec::new();
        core::mem::swap(&mut items, &mut self.0);
        let ghost all = items@;
        let ghost mut keep: Seq<bool> = Seq::empty();
        let mut out: Vec<Token> = Vec::new();
        assert(all.take(0) =~= Seq::<Token>::empty());
        for token in it: items
            invariant
                all == old(self).0@,
                it.seq() == all,
                keep.len() == it.index(),
                out@ == select(all.take(it.index() as int), keep),
                forall|t: &Token| f.requires((t,)),
                forall|k: int| 0 <= k < keep.len() ==> f.ensures((&all[k],), #[trigger] keep[k]),
        {
            let ghost i = it.index() as int;
            let kept = f(&token);
            proof {
                assert(all.take(i + 1).drop_last() == all.take(i));
                assert(keep.push(kept).drop_last() == keep);
                assert(all[i] == token);
                keep = keep.push(kept);
            }
            if kept {
                out.push(token);
            }
        }
        assert(all.take(all.len() as int) == all);
        self.0 = out;
    }

    /// Keeps the tokens that pass `test`, in their order.
    pub fn keep_each<T: TokenTest>(&mut self, test: &T)
        ensures
            final(self)@ == kept(test, old(self)@),
    {
        let mut items: Vec<Token> = Vec::new();
        core::mem::swap(&mut items, &mut self.0);
        let ghost all = texts(items@);
        let mut out: Vec<Token> = Vec::new();
        assert(texts(out@) =~= kept(test, all.take(0)));
        for token in it: items
            invariant
                all == old(self)@,
                texts(it.seq()) == all,
                texts(out@) == kept(test, all.take(it.index() as int)),
        {
            let ghost i = it.index() as int;
            proof {
                assert(all.take(i + 1).drop_last() == all.take(i));
                assert(all[i] == token@);
                reveal(Seq::filter);
            }
            if test.test(&token) {
                proof {
                    assert(texts(out@.push(token)) == texts(out@).push(token@));
                }
                out.push(token);
            }
        }
        assert(all.take(all.len() as int) == all);
        self.0 = out;
    }

    /// Removes the tokens without text.
    pub fn retain_non_empty(&mut self)
        ensures
            final(self)@ == non_empty(old(self)@),
    {
        self.keep_each(&HasText);
        assert(kept(&HasText, old(self)@) =~= non_empty(old(self)@)) by {
            assert((|t: Seq<char>| HasText.passes(t)) =~= (|t: Seq<char>| t.len() > 0));
        }
    }

    /// How often a token with the text of `term` occurs.
    pub fn term_count(&self, term: &Token) -> (n: usize)
        ensures
            n == occurrences(self@, term@),
    {
        let mut n: usize = 0;
        let mut i: usize = 0;
        while i < self.0.len()
            invariant
                i <= self.0.len(),
                n == occurrences(self@.take(i as int), term@),
                n <= i,
            decreases self.0.len() - i,
        {
            proof {
                assert(self@.take(i + 1).drop_last() == self@.take(i as int));
                reveal(Seq::filter);
            }
            if self.0[i].same_text(term) {
                n += 1;
            }
            i += 1;
        }
        assert(self@.take(i as int) == self@);
        n
    }
}

impl From<Vec<Token>> for TokenVec {
    fn from(value: Vec<Token>) -> (r: TokenVec) {
        TokenVec(value)
    }
}

impl vstd::std_specs::convert::FromSpecImpl<Vec<Token>> for TokenVec {
    open spec fn obeys_from_spec() -> bool {
        true
    }

    open spec fn from_spec(value: Vec<Token>) -> TokenVec {
        TokenVec(value)
    }
}

} // verus!
