//! Splitting text into tokens.
//!
//! A tokenizer cuts a text at its separator characters and keeps the pieces
//! that are not empty: the tokens are the maximal runs of characters that
//! are not separators, in the order in which they stand in the text. Case
//! and the characters inside a token are kept as they are.

pub mod html;
pub mod standard;
pub mod whitespace;

use crate::token::{texts, Token, TokenVec, Tokens};
use vstd::prelude::*;

pub use html::Html;
pub use standard::Standard;
pub use whitespace::Whitespace;

verus! {

/// Whether `c` is whitespace: one of the characters with the Unicode
/// property `White_Space`. These are the ASCII controls from tab to
/// carriage return, the blank, next line, the no-break space, the Ogham
/// space mark, the spaces from en quad to hair space, the line and the
/// paragraph separator, the narrow no-break space, the medium mathematical
/// space and the ideographic space.
pub open spec fn is_whitespace(c: char) -> bool {
    ||| '\u{9}' <= c && c <= '\u{d}'
    ||| c == '\u{20}'
    ||| c == '\u{85}'
    ||| c == '\u{a0}'
    ||| c == '\u{1680}'
    ||| '\u{2000}' <= c && c <= '\u{200a}'
    ||| c == '\u{2028}'
    ||| c == '\u{2029}'
    ||| c == '\u{202f}'
    ||| c == '\u{205f}'
    ||| c == '\u{3000}'
}

pub fn is_whitespace_char(c: char) -> (r: bool)
    ensures
        r == is_whitespace(c),
{
    ('\u{9}' <= c && c <= '\u{d}') || c == '\u{20}' || c == '\u{85}' || c == '\u{a0}' || c
        == '\u{1680}' || ('\u{2000}' <= c && c <= '\u{200a}') || c == '\u{2028}' || c
        == '\u{2029}' || c == '\u{202f}' || c == '\u{205f}' || c == '\u{3000}'
}

/// Number of characters at the start of `text` up to, and without, its first
/// separator.
pub open spec fn run_len(text: Seq<char>, sep: spec_fn(char) -> bool) -> nat
    decreases text.len(),
{
    if text.len() == 0 || sep(text[0]) {
        0
    } else {
        1 + run_len(text.drop_first(), sep)
    }
}

/// The tokens of `text`: its maximal runs of characters that are not
/// separators, from left to right.
pub open spec fn split(text: Seq<char>, sep: spec_fn(char) -> bool) -> Seq<Seq<char>>
    decreases text.len(),
{
    if text.len() == 0 {
        Seq::empty()
    } else if sep(text[0]) {
        split(text.drop_first(), sep)
    } else {
        let n = run_len(text, sep) as int;
        proof {
            lemma_run_len_bounds(text, sep);
        }
        seq![text.take(n)] + split(text.skip(n), sep)
    }
}

/// The leading run is no longer than the text, holds no separator, ends at a
/// separator or at the end of the text, and is not empty where the text
/// starts with a character that is no separator.
pub proof fn lemma_run_len_bounds(text: Seq<char>, sep: spec_fn(char) -> bool)
    ensures
        run_len(text, sep) <= text.len(),
        forall|j: int| 0 <= j < run_len(text, sep) ==> !sep(#[trigger] text[j]),
        run_len(text, sep) < text.len() ==> sep(text[run_len(text, sep) as int]),
        text.len() > 0 && !sep(text[0]) ==> run_len(text, sep) >= 1,
    decreases text.len(),
{
    if text.len() == 0 || sep(text[0]) {
    } else {
        let rest = text.drop_first();
        lemma_run_len_bounds(rest, sep);
        assert forall|j: int| 0 <= j < run_len(text, sep) implies !sep(#[trigger] text[j]) by {
            if j > 0 {
                assert(text[j] == rest[j - 1]);
            }
        }
        if run_len(text, sep) < text.len() {
            assert(text[run_len(text, sep) as int] == rest[run_len(rest, sep) as int]);
        }
    }
}

/// A run of `n` characters that are no separators, followed by a separator
/// or by the end of the text, is the leading run.
pub proof fn lemma_run_len_is(text: Seq<char>, sep: spec_fn(char) -> bool, n: int)
    requires
        0 <= n <= text.len(),
        forall|j: int| 0 <= j < n ==> !sep(#[trigger] text[j]),
        n < text.len() ==> sep(text[n]),
    ensures
        run_len(text, sep) == n,
    decreases n,
{
    if n > 0 {
        let rest = text.drop_first();
        assert forall|j: int| 0 <= j < n - 1 implies !sep(#[trigger] rest[j]) by {
            assert(rest[j] == text[j + 1]);
        }
        if n - 1 < rest.len() {
            assert(rest[n - 1] == text[n]);
        }
        lemma_run_len_is(rest, sep, n - 1);
    }
}

/// Every token is a non-empty run without separators.
pub proof fn lemma_split_tokens(text: Seq<char>, sep: spec_fn(char) -> bool)
    ensures
        forall|k: int|
            0 <= k < split(text, sep).len() ==> (#[trigger] split(text, sep)[k]).len() > 0,
        forall|k: int, j: int|
            0 <= k < split(text, sep).len() && 0 <= j < split(text, sep)[k].len() ==> !sep(
                #[trigger] split(text, sep)[k][j],
            ),
    decreases text.len(),
{
    let all = split(text, sep);
    if text.len() == 0 {
        assert(all.len() == 0);
    } else if sep(text[0]) {
        lemma_split_tokens(text.drop_first(), sep);
        assert(all == split(text.drop_first(), sep));
    } else {
        let n = run_len(text, sep) as int;
        lemma_run_len_bounds(text, sep);
        lemma_split_tokens(text.skip(n), sep);
        let tail = split(text.skip(n), sep);
        assert(all == seq![text.take(n)] + tail);
        assert(all[0] == text.take(n));
        assert forall|k: int| 0 <= k < all.len() implies (#[trigger] all[k]).len() > 0 by {
            if k > 0 {
                assert(all[k] == tail[k - 1]);
            }
        }
        assert forall|k: int, j: int| 0 <= k < all.len() && 0 <= j < all[k].len() implies !sep(
            #[trigger] all[k][j],
        ) by {
            if k > 0 {
                assert(all[k] == tail[k - 1]);
                assert(!sep(tail[k - 1][j]));
            } else {
                assert(all[0][j] == text[j]);
            }
        }
    }
}

/// A text without characters has no tokens.
pub proof fn lemma_split_empty(sep: spec_fn(char) -> bool)
    ensures
        split(Seq::<char>::empty(), sep) == Seq::<Seq<char>>::empty(),
{
}

/// Cutting at `i`, where a run that began at `s` ends: the tokens from `s` on
/// are that run and then the tokens from `i` on.
proof fn lemma_split_run(text: Seq<char>, sep: spec_fn(char) -> bool, s: int, i: int)
    requires
        0 <= s < i <= text.len(),
        forall|j: int| s <= j < i ==> !sep(#[trigger] text[j]),
        i < text.len() ==> sep(text[i]),
    ensures
        split(text.skip(s), sep) == seq![text.subrange(s, i)] + split(text.skip(i), sep),
{
    let t = text.skip(s);
    assert forall|j: int| 0 <= j < i - s implies !sep(#[trigger] t[j]) by {
        assert(t[j] == text[s + j]);
    }
    lemma_run_len_is(t, sep, i - s);
    assert(t.take(i - s) == text.subrange(s, i));
    assert(t.skip(i - s) == text.skip(i));
}

/// Cutting at a separator: it adds no token.
proof fn lemma_split_separator(text: Seq<char>, sep: spec_fn(char) -> bool, i: int)
    requires
        0 <= i < text.len(),
        sep(text[i]),
    ensures
        split(text.skip(i), sep) == split(text.skip(i + 1), sep),
{
    assert(text.skip(i).drop_first() == text.skip(i + 1));
}

/// The kinds of separators at which a text is cut.
#[derive(Clone, Copy, Debug, PartialEq, Eq, Structural)]
pub enum Separator {
    /// The fixed set of delimiters.
    Delimiter,
    /// Unicode whitespace.
    Whitespace,
    /// Line feed and carriage return.
    LineBreak,
}

/// Whether `c` is a separator of the kind `kind`.
pub open spec fn is_separator(kind: Separator, c: char) -> bool {
    match kind {
        Separator::Delimiter => standard::is_delimiter(c),
        Separator::Whitespace => is_whitespace(c),
        Separator::LineBreak => c == '\n' || c == '\r',
    }
}

fn separates(kind: Separator, c: char) -> (r: bool)
    ensures
        r == is_separator(kind, c),
{
    match kind {
        Separator::Delimiter => standard::is_delimiter_char(c),
        Separator::Whitespace => is_whitespace_char(c),
        Separator::LineBreak => c == '\n' || c == '\r',
    }
}

/// The pieces of `text` between separators of the kind `kind`, without the
/// empty ones.
pub open spec fn pieces(text: Seq<char>, kind: Separator) -> Seq<Seq<char>> {
    split(text, |c: char| is_separator(kind, c))
}

/// Cuts `text` at the separators of the kind `kind`.
pub fn split_text(text: &str, kind: Separator) -> (out: TokenVec)
    ensures
        out@ == pieces(text@, kind),
{
    let ghost sep = |c: char| is_separator(kind, c);
    let mut out: Vec<Token> = Vec::new();
    let mut cur = String::new();
    let ghost mut start: int = 0;
    assert(text@.skip(0) == text@);
    assert(texts(out@) + split(text@, sep) == split(text@, sep));
    for c in it: text.chars()
        invariant
            it.seq() == text@,
            sep == (|c: char| is_separator(kind, c)),
            0 <= start <= it.index() <= text@.len(),
            cur@ == text@.subrange(start, it.index() as int),
            forall|j: int| start <= j < it.index() ==> !sep(#[trigger] text@[j]),
            split(text@, sep) == texts(out@) + split(text@.skip(start), sep),
    {
        let ghost i = it.index() as int;
        if separates(kind, c) {
            if !cur.as_str().is_empty() {
                proof {
                    lemma_split_run(text@, sep, start, i);
                    lemma_split_separator(text@, sep, i);
                    assert(texts(out@.push(Token(cur))) == texts(out@).push(cur@));
                    assert(texts(out@).push(cur@) + split(text@.skip(i + 1), sep) == texts(out@)
                        + (seq![cur@] + split(text@.skip(i + 1), sep)));
                }
                out.push(Token(cur));
                cur = String::new();
            } else {
                proof {
                    lemma_split_separator(text@, sep, i);
                }
            }
            proof {
                start = i + 1;
            }
        } else {
            cur.push(c);
            assert(text@.subrange(start, i).push(text@[i]) == text@.subrange(start, i + 1));
        }
    }
    if !cur.as_str().is_empty() {
        proof {
            let n = text@.len() as int;
            lemma_split_run(text@, sep, start, n);
            assert(text@.skip(n) == Seq::<char>::empty());
            assert(texts(out@.push(Token(cur))) == texts(out@).push(cur@));
            assert(texts(out@).push(cur@) == texts(out@) + (seq![cur@] + Seq::<Seq<char>>::empty()));
        }
        out.push(Token(cur));
    } else {
        assert(text@.skip(start) == Seq::<char>::empty());
        assert(texts(out@) + Seq::<Seq<char>>::empty() == texts(out@));
    }
    TokenVec(out)
}

/// The provided tokenizers.
#[derive(Clone, Copy, Debug)]
pub enum Tokenizer {
    Standard(Standard),
    Whitespace(Whitespace),
}

impl Tokenizer {
    /// The tokens that this tokenizer makes of `text`.
    pub open spec fn tokens(&self, text: Seq<char>) -> Seq<Seq<char>> {
        match self {
            Tokenizer::Standard(_) => standard::standard_tokens(text),
            Tokenizer::Whitespace(_) => whitespace::whitespace_tokens(text),
        }
    }

    pub fn tokenize(&mut self, text: &str) -> (out: Tokens)
        ensures
            out@ == old(self).tokens(text@),
            *final(self) == *old(self),
    {
        match self {
            Tokenizer::Standard(_) => split_text(text, Separator::Delimiter),
            Tokenizer::Whitespace(_) => split_text(text, Separator::Whitespace),
        }
    }
}

/// What a tokenizer is: a function from a text to its tokens.
pub trait TextTokenizer {
    /// The tokens of `text`.
    spec fn tokens(&self, text: Seq<char>) -> Seq<Seq<char>>;

    fn tokenize(&mut self, text: &str) -> (out: Tokens)
        ensures
            out@ == old(self).tokens(text@),
    ;
}

} // verus!
