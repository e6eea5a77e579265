//! The tokenizer that cuts at a fixed set of delimiters.

use crate::token::Tokens;
use crate::tokenizer::{pieces, split_text, Separator, TextTokenizer};
use vstd::prelude::*;

verus! {

/// The delimiters: blank, tab, carriage return, line feed and
/// `, ; ! @ # $ % ^ . - ( ) { } [ ] ' " < >`.
pub open spec fn is_delimiter(c: char) -> bool {
    ||| c == ' '
    ||| c == ','
    ||| c == ';'
    ||| c == '!'
    ||| c == '@'
    ||| c == '#'
    ||| c == '$'
    ||| c == '%'
    ||| c == '^'
    ||| c == '.'
    ||| c == '-'
    ||| c == '('
    ||| c == ')'
    ||| c == '{'
    ||| c == '}'
    ||| c == '['
    ||| c == ']'
    ||| c == '\''
    ||| c == '"'
    ||| c == '<'
    ||| c == '>'
    ||| c == '\t'
    ||| c == '\r'
    ||| c == '\n'
}

pub fn is_delimiter_char(c: char) -> (r: bool)
    ensures
        r == is_delimiter(c),
{
    c == ' ' || c == ',' || c == ';' || c == '!' || c == '@' || c == '#' || c == '$' || c == '%'
        || c == '^' || c == '.' || c == '-' || c == '(' || c == ')' || c == '{' || c == '}' || c
        == '[' || c == ']' || c == '\'' || c == '"' || c == '<' || c == '>' || c == '\t' || c
        == '\r' || c == '\n'
}

/// The delimiters, each once.
pub fn delimiters() -> (set: Vec<char>)
    ensures
        forall|c: char| set@.contains(c) <==> is_delimiter(c),
        set@.no_duplicates(),
{
    let set = vec![
        ' ', ',', ';', '!', '@', '#', '$', '%', '^', '.', '-', '(', ')', '{', '}', '[', ']',
        '\'', '"', '<', '>', '\t', '\r', '\n',
    ];
    assert forall|c: char| is_delimiter(c) implies set@.contains(c) by {
        let k = choose|k: int| 0 <= k < 24 && set@[k] == c;
        assert(set@[k] == c);
    }
    set
}

/// The tokens of `text` under the delimiters.
pub open spec fn standard_tokens(text: Seq<char>) -> Seq<Seq<char>> {
    pieces(text, Separator::Delimiter)
}

#[derive(Clone, Copy, Debug, Default)]
pub struct Standard;

impl Standard {
    pub fn new() -> (r: Self)
        ensures
            r == Standard,
    {
        Standard
    }
}

impl TextTokenizer for Standard {
    open spec fn tokens(&self, text: Seq<char>) -> Seq<Seq<char>> {
        standard_tokens(text)
    }

    fn tokenize(&mut self, text: &str) -> (out: Tokens) {
        split_text(text, Separator::Delimiter)
    }
}

} // verus!
