//! The tokenizer for HTML: the markup is rendered to plain text, and the
//! text is cut at the delimiters.
//!
//! The renderer reads two attributes as numbers, the `colspan` of a table
//! cell and the `start` of an ordered list, and adds to them without a
//! bound. A text that gives one of them a value is therefore not handed to
//! the renderer at all.

use crate::text::{lower_char, to_lower};
use crate::token::Tokens;
use crate::tokenizer::standard::standard_tokens;
use crate::tokenizer::{split_text, Separator};
use vstd::prelude::*;

verus! {

/// The plain text that `html2text` renders `html` to, wrapped to `width`
/// columns, or `None` where it reports a failure.
pub uninterp spec fn html_text(html: Seq<char>, width: usize) -> Option<Seq<char>>;

/// Number of columns to which the rendered text is wrapped.
pub const HTML_WIDTH: usize = 100;

/// The characters that may stand between the name of an attribute and its
/// `=`: blank, tab, line feed, form feed and carriage return.
pub open spec fn is_html_space(c: char) -> bool {
    c == ' ' || c == '\t' || c == '\n' || c == '\x0c' || c == '\r'
}

/// The name of the attribute that says how many columns a cell spans.
pub open spec fn colspan_name() -> Seq<char> {
    seq!['c', 'o', 'l', 's', 'p', 'a', 'n']
}

/// The name of the attribute that says where an ordered list starts.
pub open spec fn start_name() -> Seq<char> {
    seq!['s', 't', 'a', 'r', 't']
}

/// Whether `name`, which is in lower case, stands in `html` at the place
/// `at`, in any ASCII case.
pub open spec fn names_at(html: Seq<char>, name: Seq<char>, at: int) -> bool {
    &&& 0 <= at
    &&& at + name.len() <= html.len()
    &&& forall|k: int| 0 <= k < name.len() ==> lower_char(#[trigger] html[at + k]) == name[k]
}

/// Whether, from the place `from` on, `html` holds an `=` with nothing but
/// space before it.
pub open spec fn assigns_from(html: Seq<char>, from: int) -> bool {
    exists|at: int|
        from <= at < html.len() && html[at] == '=' && forall|k: int|
            from <= k < at ==> is_html_space(#[trigger] html[k])
}

/// Whether `html` gives a value to something named `name`: the name stands
/// in it, in any ASCII case, and an `=` follows, with nothing but space
/// between.
pub open spec fn gives_value(html: Seq<char>, name: Seq<char>) -> bool {
    exists|at: int| names_at(html, name, at) && assigns_from(html, at + name.len())
}

/// Whether `html` may be handed to the renderer: it gives no value to a
/// `colspan` and none to a `start`.
pub open spec fn is_renderable(html: Seq<char>) -> bool {
    !gives_value(html, colspan_name()) && !gives_value(html, start_name())
}

/// The characters of `text`.
fn chars_of(text: &str) -> (out: Vec<char>)
    ensures
        out@ == text@,
{
    let mut out: Vec<char> = Vec::new();
    for c in it: text.chars()
        invariant
            it.seq() == text@,
            out@ == text@.take(it.index() as int),
    {
        proof {
            let i = it.index() as int;
            assert(text@.take(i + 1) == text@.take(i).push(text@[i]));
        }
        out.push(c);
    }
    assert(text@.take(text@.len() as int) == text@);
    out
}

fn is_html_space_char(c: char) -> (r: bool)
    ensures
        r == is_html_space(c),
{
    c == ' ' || c == '\t' || c == '\n' || c == '\x0c' || c == '\r'
}

fn names_at_place(html: &Vec<char>, name: &Vec<char>, at: usize) -> (r: bool)
    ensures
        r == names_at(html@, name@, at as int),
{
    if name.len() > html.len() || at > html.len() - name.len() {
        return false;
    }
    let mut k: usize = 0;
    while k < name.len()
        invariant
            k <= name.len(),
            at + name.len() <= html.len(),
            forall|n: int| 0 <= n < k ==> lower_char(#[trigger] html@[at + n]) == name@[n],
        decreases name.len() - k,
    {
        if to_lower(html[at + k]) != name[k] {
            return false;
        }
        k += 1;
    }
    true
}

fn assigns_from_place(html: &Vec<char>, from: usize) -> (r: bool)
    ensures
        r == assigns_from(html@, from as int),
{
    let mut at: usize = from;
    while at < html.len() && is_html_space_char(html[at])
        invariant
            from <= at,
            forall|k: int| from <= k < at && k < html@.len() ==> is_html_space(#[trigger] html@[k]),
        decreases html.len() - at,
    {
        at += 1;
    }
    let found = at < html.len() && html[at] == '=';
    proof {
        if assigns_from(html@, from as int) {
            let e = choose|e: int|
                from <= e < html@.len() && html@[e] == '=' && forall|k: int|
                    from <= k < e ==> is_html_space(#[trigger] html@[k]);
            // The loop stops at the first character that is no space, and
            // that is the `=`.
            if at < e {
                assert(is_html_space(html@[at as int]));
            }
            if e < at {
                assert(is_html_space(html@[e]));
            }
        }
    }
    found
}

fn gives_value_in(html: &Vec<char>, name: &Vec<char>) -> (r: bool)
    requires
        name@.len() > 0,
    ensures
        r == gives_value(html@, name@),
{
    if name.len() > html.len() {
        return false;
    }
    let last = html.len() - name.len();
    let mut at: usize = 0;
    while at <= last
        invariant
            name@.len() > 0,
            last == html.len() - name.len(),
            at <= last + 1,
            forall|a: int|
                0 <= a < at ==> !(names_at(html@, name@, a) && assigns_from(
                    html@,
                    a + name@.len(),
                )),
        decreases last + 1 - at,
    {
        if names_at_place(html, name, at) && assigns_from_place(html, at + name.len()) {
            return true;
        }
        at += 1;
    }
    false
}

/// Whether `html` may be handed to the renderer.
pub fn renderable(html: &str) -> (r: bool)
    ensures
        r == is_renderable(html@),
{
    let chars = chars_of(html);
    let colspan = vec!['c', 'o', 'l', 's', 'p', 'a', 'n'];
    let start = vec!['s', 't', 'a', 'r', 't'];
    assert(colspan@ =~= colspan_name());
    assert(start@ =~= start_name());
    !gives_value_in(&chars, &colspan) && !gives_value_in(&chars, &start)
}

/// `string_from_read` of `html2text`'s plain configuration, on the bytes of
/// `html`. The rendering is named, not spelled out; an error of the renderer
/// comes back as `None`. Left out are the texts on which the renderer's
/// additions of `colspan` and `start` values can overflow, and a width of
/// no column.
#[verifier::external_body]
fn render_html(html: &str, width: usize) -> (out: Option<String>)
    requires
        is_renderable(html@),
        width > 0,
    ensures
        (out is Some) == (html_text(html@, width) is Some),
        out is Some ==> out->0@ == html_text(html@, width)->0,
{
    html2text::config::plain().string_from_read(html.as_bytes(), width).ok()
}

#[derive(Clone, Copy, Debug, Default)]
pub struct Html {
    pub tokenizer: crate::tokenizer::Standard,
}

impl Html {
    pub fn new() -> (r: Self)
        ensures
            r == (Html { tokenizer: crate::tokenizer::Standard }),
    {
        Html { tokenizer: crate::tokenizer::Standard }
    }

    /// The tokens of the text that `html` renders to; `None` where `html`
    /// is not handed to the renderer, or the renderer fails on it.
    pub fn tokenize(&mut self, html: &str) -> (out: Option<Tokens>)
        ensures
            (out is Some) == (is_renderable(html@) && html_text(html@, HTML_WIDTH) is Some),
            out is Some ==> out->0@ == standard_tokens(html_text(html@, HTML_WIDTH)->0),
    {
        if !renderable(html) {
            return None;
        }
        match render_html(html, HTML_WIDTH) {
            Some(text) => Some(split_text(text.as_str(), Separator::Delimiter)),
            None => None,
        }
    }
}

} // verus!
