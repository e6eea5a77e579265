use idx::token::{Token, TokenVec};
use idx::tokenizer::html::renderable;
use idx::tokenizer::{Html, Standard, TextTokenizer, Tokenizer, Whitespace};

fn tokens(words: &[&str]) -> TokenVec {
    TokenVec::from(words.iter().map(|word| Token::from(*word)).collect::<Vec<Token>>())
}

#[test]
fn test_tokens() {
    let tokens = tokens(&["one"]);
    assert_eq!(tokens.count(), 1);
}

#[test]
fn test_standard_basic() {
    let text = "The quick brown fox jumps over the lazy dog";

    let mut tokenizer = Standard::new();
    let result = tokenizer.tokenize(text);

    assert_eq!(
        result,
        tokens(&["The", "quick", "brown", "fox", "jumps", "over", "the", "lazy", "dog"])
    );
}

#[test]
fn test_standard_with_punctuation() {
    let text = String::from("Hello, world! This is a test.");

    let mut tokenizer = Standard::new();
    let result = tokenizer.tokenize(&text);

    assert_eq!(result, tokens(&["Hello", "world", "This", "is", "a", "test"]));
}

#[test]
fn test_standard_empty_string() {
    let text = String::new();

    let mut tokenizer = Standard::new();
    let result = tokenizer.tokenize(&text);

    assert_eq!(result, tokens(&[]));
}

#[test]
fn test_standard_multiple_spaces() {
    let text = String::from("The  quick   brown fox");

    let mut tokenizer = Standard::new();
    let result = tokenizer.tokenize(&text);

    assert_eq!(result, tokens(&["The", "quick", "brown", "fox"]));
}

#[test]
fn test_tokenizer_with_newlines() {
    let text = String::from("The quick\nbrown\nfox");

    let mut tokenizer = Standard::new();
    let result = tokenizer.tokenize(&text);

    assert_eq!(result, tokens(&["The", "quick", "brown", "fox"]));
}

#[test]
fn test_standard_with_tabs() {
    let text = String::from("The\tquick\tbrown\tfox");

    let mut tokenizer = Standard::new();
    let result = tokenizer.tokenize(&text);

    assert_eq!(result, tokens(&["The", "quick", "brown", "fox"]));
}

#[test]
fn test_standard_unicode() {
    let text = String::from("एकाधिक - ಭಾಷೆಗಳು - work");

    let mut tokenizer = Standard::new();
    let result = tokenizer.tokenize(&text);

    assert_eq!(result, tokens(&["एकाधिक", "ಭಾಷೆಗಳು", "work"]));
}

#[test]
fn test_standard_mixed_whitespace() {
    let text = String::from("The quick\tbrown\nfox  jumps\tover\nthe lazy\tdog");

    let mut tokenizer = Standard::new();
    let result = tokenizer.tokenize(&text);

    assert_eq!(
        result,
        tokens(&["The", "quick", "brown", "fox", "jumps", "over", "the", "lazy", "dog"])
    );
}

#[test]
fn test_standard_every_delimiter() {
    let text = "a b,c;d!e@f#g$h%i^j.k-l(m)n{o}p[q]r's\"t<u>v\tw\rx\ny";

    let mut tokenizer = Standard::new();
    let result = tokenizer.tokenize(text);

    assert_eq!(
        result,
        tokens(&[
            "a", "b", "c", "d", "e", "f", "g", "h", "i", "j", "k", "l", "m", "n", "o", "p", "q",
            "r", "s", "t", "u", "v", "w", "x", "y"
        ])
    );
}

#[test]
fn test_standard_keeps_other_punctuation() {
    let mut tokenizer = Standard::new();
    let result = tokenizer.tokenize("a&b c/d e?f g:h i_j k=l m+n o*p q~r s|t u\\v w`x");

    assert_eq!(
        result,
        tokens(&["a&b", "c/d", "e?f", "g:h", "i_j", "k=l", "m+n", "o*p", "q~r", "s|t", "u\\v", "w`x"])
    );
}

#[test]
fn test_standard_only_delimiters() {
    let mut tokenizer = Standard::new();
    let result = tokenizer.tokenize(" ,;!@#$%^.-(){}[]'\"<>\t\r\n");
    assert!(result.is_empty());
}

#[test]
fn test_delimiters_listed_once() {
    let set = idx::tokenizer::standard::delimiters();
    assert_eq!(set.len(), 24);
    for c in " ,;!@#$%^.-(){}[]'\"<>\t\r\n".chars() {
        assert_eq!(set.iter().filter(|d| **d == c).count(), 1);
        assert!(idx::tokenizer::standard::is_delimiter_char(c));
    }
    assert!(!idx::tokenizer::standard::is_delimiter_char('a'));
    assert!(!idx::tokenizer::standard::is_delimiter_char('&'));
}

#[test]
fn test_whitespace() {
    let mut tokenizer = Whitespace::new();
    let text = "This is a test";
    let result = tokenizer.tokenize(text);
    assert_eq!(result, tokens(&["This", "is", "a", "test"]));
}

#[test]
fn test_whitespace_empty_string() {
    let mut tokenizer = Whitespace::new();
    let text = "";
    let result = tokenizer.tokenize(text);
    assert!(result.is_empty());
}

#[test]
fn test_whitespace_multiple() {
    let mut tokenizer = Whitespace::new();
    let text = "This  is    a test";
    let result = tokenizer.tokenize(text);
    assert_eq!(result, tokens(&["This", "is", "a", "test"]));
}

#[test]
fn test_whitespace_leading_and_trailing() {
    let mut tokenizer = Whitespace::new();
    let text = "   This is a test   ";
    let result = tokenizer.tokenize(text);
    assert_eq!(result, tokens(&["This", "is", "a", "test"]));
}

#[test]
fn test_whitespace_non_ascii() {
    let mut tokenizer = Whitespace::new();
    let text = "This is\u{00A0}a\u{3000}test";
    let result = tokenizer.tokenize(text);
    assert_eq!(result, tokens(&["This", "is", "a", "test"]));
}

#[test]
fn test_whitespace_string() {
    let mut tokenizer = Whitespace::new();
    let text = "   \t\n  ";
    let result = tokenizer.tokenize(text);
    assert!(result.is_empty());
}

#[test]
fn test_whitespace_keeps_delimiters() {
    let mut tokenizer = Whitespace::new();
    let result = tokenizer.tokenize("Hello, world! (yes)");
    assert_eq!(result, tokens(&["Hello,", "world!", "(yes)"]));
}

#[test]
fn test_tokenizer_enum_dispatch() {
    let text = "Hello, world!\u{00A0}again";

    let mut standard = Tokenizer::Standard(Standard::new());
    assert_eq!(standard.tokenize(text), tokens(&["Hello", "world", "\u{00A0}again"]));

    let mut whitespace = Tokenizer::Whitespace(Whitespace::new());
    assert_eq!(whitespace.tokenize(text), tokens(&["Hello,", "world!", "again"]));
}

#[test]
fn test_tokenizer_html_basic() {
    let mut html_tokenizer = Html::new();
    let text = "<p>Hello, world!</p>";
    let result = html_tokenizer.tokenize(text).unwrap();
    assert_eq!(result, tokens(&["Hello", "world"]));
}

#[test]
fn test_tokenizer_html_empty() {
    let mut html_tokenizer = Html::new();
    let text = "";
    let result = html_tokenizer.tokenize(text).unwrap();
    assert!(result.is_empty());
}

#[test]
fn test_tokenizer_html_invalid() {
    let mut html_tokenizer = Html::new();
    let text = "<p>Unclosed tag";
    let result = html_tokenizer.tokenize(text).unwrap();
    assert_eq!(result, tokens(&["Unclosed", "tag"]));
}

#[test]
fn test_tokenizer_html_special_characters() {
    let mut html_tokenizer = Html::new();
    let text = "<p>Special characters &amp; entities &#x1F600;.</p>";
    let result = html_tokenizer.tokenize(text).unwrap();
    assert_eq!(result, tokens(&["Special", "characters", "&", "entities", "😀"]));
}

#[test]
fn test_tokenizer_html_script_and_style() {
    let mut html_tokenizer = Html::new();
    let text = r#"
            <html>
                <head>
                    <style>
                        body {font-size: 14px;}
                    </style>
                    <script>
                        console.log("Hello, world!");
                    </script>
                </head>
                <body>
                    <p>Content</p>
                </body>
            </html>
        "#;
    let result = html_tokenizer.tokenize(text).unwrap();
    assert_eq!(result, tokens(&["Content"]));
}

#[test]
fn test_tokenizer_html_markup_is_not_text() {
    let mut html_tokenizer = Html::new();
    let result = html_tokenizer.tokenize("<b>bold</b> <i>move</i>").unwrap();
    assert!(result.count() >= 2);
    assert_eq!(result.term_count(&Token::from("b")), 0);
    assert_eq!(result.term_count(&Token::from("i")), 0);
}

#[test]
fn test_whitespace_is_unicode_white_space() {
    let mut count = 0;
    for code in 0..=0x10FFFFu32 {
        if let Some(c) = char::from_u32(code) {
            assert_eq!(idx::tokenizer::is_whitespace_char(c), c.is_whitespace(), "U+{code:04X}");
            if c.is_whitespace() {
                count += 1;
            }
        }
    }
    assert_eq!(count, 25);
}

#[test]
fn test_whitespace_every_kind() {
    let mut tokenizer = Whitespace::new();
    let text = "a\u{9}b\u{a}c\u{b}d\u{c}e\u{d}f g\u{85}h\u{a0}i\u{1680}j\u{2000}k\u{200a}l\u{2028}m\u{2029}n\u{202f}o\u{205f}p\u{3000}q\u{200b}r\u{180e}s";
    let result = tokenizer.tokenize(text);
    assert_eq!(
        result,
        tokens(&[
            "a", "b", "c", "d", "e", "f", "g", "h", "i", "j", "k", "l", "m", "n", "o", "p",
            "q\u{200b}r\u{180e}s"
        ])
    );
}

#[test]
fn test_tokenizer_html_table() {
    let mut html_tokenizer = Html::new();
    let text = "<table><tr><td>one</td><td>two</td></tr><tr><td>three</td><td>four</td></tr></table>";
    let result = html_tokenizer.tokenize(text).unwrap();
    for word in ["one", "two", "three", "four"] {
        assert_eq!(result.iter().filter(|token| token.as_str().contains(word)).count(), 1);
    }
}

#[test]
fn test_tokenizer_html_list() {
    let mut html_tokenizer = Html::new();
    let result = html_tokenizer.tokenize("<ol><li>start here</li><li>go on</li></ol>").unwrap();
    assert_eq!(result, tokens(&["1", "start", "here", "2", "go", "on"]));
}

#[test]
fn test_tokenizer_html_refuses_numbers_in_attributes() {
    let mut html_tokenizer = Html::new();
    let wide = "<table><tr><td colspan=\"18446744073709551615\">a</td><td colspan=\"18446744073709551615\">b</td></tr></table>";
    assert!(html_tokenizer.tokenize(wide).is_none());
    let late = "<ol start=\"9223372036854775807\"><li>a</li><li>b</li></ol>";
    assert!(html_tokenizer.tokenize(late).is_none());
    assert!(html_tokenizer.tokenize("<td COLSPAN \t\n= 2>a</td>").is_none());
    assert!(html_tokenizer.tokenize("<ol Start=3><li>a</li></ol>").is_none());
}

#[test]
fn test_renderable() {
    assert!(renderable(""));
    assert!(renderable("<p>Let us start. The colspan of a cell</p>"));
    assert!(renderable("<td colspan>a</td><ol start><li>a</li></ol>"));
    assert!(renderable("colspa=1 tart=1 colspan x=1 start\u{a0}=1"));
    assert!(renderable("start"));
    assert!(!renderable("start="));
    assert!(!renderable("colspan="));
    assert!(!renderable("x colSpan =1"));
    assert!(!renderable("x START\r\n\t\u{c} ="));
    assert!(!renderable("restart=1"));
    assert!(!renderable("<p>a</p><td colspan=2>"));
}
