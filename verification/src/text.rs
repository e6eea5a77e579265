//! Character-level rewrites shared by the tokenizers and the normalizers.

use vstd::prelude::*;

verus! {

/// `c` with an ASCII capital letter replaced by its small letter.
pub open spec fn lower_char(c: char) -> char {
    if 'A' <= c && c <= 'Z' {
        ((c as u8) + 32) as char
    } else {
        c
    }
}

/// `c` with an ASCII small letter replaced by its capital letter.
pub open spec fn upper_char(c: char) -> char {
    if 'a' <= c && c <= 'z' {
        ((c as u8) - 32) as char
    } else {
        c
    }
}

/// The ASCII punctuation characters: the printable ASCII characters that are
/// neither letters, digits nor the space.
pub open spec fn is_punctuation(c: char) -> bool {
    ||| '!' <= c && c <= '/'
    ||| ':' <= c && c <= '@'
    ||| '[' <= c && c <= '`'
    ||| '{' <= c && c <= '~'
}

/// `s` with every ASCII capital letter made small.
pub open spec fn lowercase(s: Seq<char>) -> Seq<char> {
    s.map_values(|c: char| lower_char(c))
}

/// `s` with every ASCII small letter made capital.
pub open spec fn uppercase(s: Seq<char>) -> Seq<char> {
    s.map_values(|c: char| upper_char(c))
}

/// `s` without its ASCII punctuation characters.
pub open spec fn strip_punctuation(s: Seq<char>) -> Seq<char> {
    s.filter(|c: char| !is_punctuation(c))
}

/// `String::push` of std: the character is appended to the end of the
/// string.
pub assume_specification[ String::push ](s: &mut String, ch: char)
    ensures
        final(s)@ == old(s)@.push(ch),
;

pub fn to_lower(c: char) -> (r: char)
    ensures
        r == lower_char(c),
{
    if 'A' <= c && c <= 'Z' {
        let b: u8 = c as u8;
        (b + 32) as char
    } else {
        c
    }
}

pub fn to_upper(c: char) -> (r: char)
    ensures
        r == upper_char(c),
{
    if 'a' <= c && c <= 'z' {
        let b: u8 = c as u8;
        (b - 32) as char
    } else {
        c
    }
}

pub fn is_punctuation_char(c: char) -> (r: bool)
    ensures
        r == is_punctuation(c),
{
    ('!' <= c && c <= '/') || (':' <= c && c <= '@') || ('[' <= c && c <= '`') || ('{' <= c && c
        <= '~')
}

/// `c` in the case asked for: capital if `upper`, else small.
pub open spec fn cased_char(c: char, upper: bool) -> char {
    if upper {
        upper_char(c)
    } else {
        lower_char(c)
    }
}

/// `s` in the case asked for: capital if `upper`, else small.
pub open spec fn cased(s: Seq<char>, upper: bool) -> Seq<char> {
    s.map_values(|c: char| cased_char(c, upper))
}

/// A copy of `text` with its ASCII letters in the case asked for.
pub fn fold_case(text: &str, upper: bool) -> (out: String)
    ensures
        out@ == cased(text@, upper),
{
    let mut out = String::new();
    for c in it: text.chars()
        invariant
            it.seq() == text@,
            out@ == cased(text@.take(it.index() as int), upper),
    {
        proof {
            let i = it.index() as int;
            assert(text@.take(i + 1) == text@.take(i).push(text@[i]));
            assert(cased(text@.take(i + 1), upper) == cased(text@.take(i), upper).push(
                cased_char(text@[i], upper),
            ));
        }
        out.push(if upper { to_upper(c) } else { to_lower(c) });
    }
    assert(text@.take(text@.len() as int) == text@);
    out
}

/// A copy of `text` with every ASCII capital letter made small.
pub fn ascii_lowercase(text: &str) -> (out: String)
    ensures
        out@ == lowercase(text@),
{
    let out = fold_case(text, false);
    assert(cased(text@, false) =~= lowercase(text@));
    out
}

/// A copy of `text` with every ASCII small letter made capital.
pub fn ascii_uppercase(text: &str) -> (out: String)
    ensures
        out@ == uppercase(text@),
{
    let out = fold_case(text, true);
    assert(cased(text@, true) =~= uppercase(text@));
    out
}

/// A copy of `text` without its ASCII punctuation characters.
pub fn without_punctuation(text: &str) -> (out: String)
    ensures
        out@ == strip_punctuation(text@),
{
    let mut out = String::new();
    for c in it: text.chars()
        invariant
            it.seq() == text@,
            out@ == strip_punctuation(text@.take(it.index() as int)),
    {
        proof {
            let i = it.index() as int;
            assert(text@.take(i + 1).drop_last() == text@.take(i));
            reveal(Seq::filter);
        }
        if !is_punctuation_char(c) {
            out.push(c);
        }
    }
    assert(text@.take(text@.len() as int) == text@);
    out
}

/// Lower-casing a string twice gives what lower-casing it once gives.
pub proof fn lemma_lowercase_idempotent(s: Seq<char>)
    ensures
        lowercase(lowercase(s)) == lowercase(s),
{
    assert(lowercase(lowercase(s)) =~= lowercase(s));
}

/// Upper-casing a string twice gives what upper-casing it once gives.
pub proof fn lemma_uppercase_idempotent(s: Seq<char>)
    ensures
        uppercase(uppercase(s)) == uppercase(s),
{
    assert(uppercase(uppercase(s)) =~= uppercase(s));
}

/// A string with its punctuation removed holds no punctuation, so removing
/// it again changes nothing.
pub proof fn lemma_strip_punctuation_idempotent(s: Seq<char>)
    ensures
        strip_punctuation(strip_punctuation(s)) == strip_punctuation(s),
    decreases s.len(),
{
    reveal(Seq::filter);
    if s.len() > 0 {
        lemma_strip_punctuation_idempotent(s.drop_last());
        let sub = strip_punctuation(s.drop_last());
        if !is_punctuation(s.last()) {
            assert(sub.push(s.last()).drop_last() == sub);
        }
    }
}

} // verus!
