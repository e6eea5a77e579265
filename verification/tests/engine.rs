use idx::aggregate::{sort_by, Order, Ranked};
use idx::config::{
    CaseConfig, ConfigParser, NormalizerConfig, ReplacerConfig, Step, StopwordsConfig,
    ThreadConfig, TokenizerConfig, TokenizerMode,
};
use idx::descriptor::Descriptor;
use idx::document::Document;
use idx::engine::IdxFacade;
use idx::error::{ConfigError, Error, IoError};
use idx::index::{Index, Indexer};
use idx::normalizer::case::Lowercase;
use idx::normalizer::punctuation::Punctuation;
use idx::normalizer::{Normalizer, NormalizerPipeline, Stopwords};
use idx::query::Query;
use idx::score::Weight;
use idx::search::{candidates, weights, DocSet};
use idx::token::{Token, TokenVec};
use idx::tokenizer::{Standard, Tokenizer, Whitespace};

fn tokens(words: &[&str]) -> TokenVec {
    TokenVec::from(words.iter().map(|word| Token::from(*word)).collect::<Vec<Token>>())
}

fn words(list: &[&str]) -> Vec<String> {
    list.iter().map(|word| word.to_string()).collect()
}

fn english_stopwords() -> Vec<String> {
    words(&["the", "on", "is", "a", "an", "and", "of", "to", "in", "how", "into", "from"])
}

fn pipeline(stopwords: Vec<String>) -> NormalizerPipeline {
    let mut pipeline = NormalizerPipeline::new();
    pipeline.insert(Normalizer::Lowercase(Lowercase::new()));
    pipeline.insert(Normalizer::Punctuation(Punctuation::new()));
    pipeline.insert(Normalizer::Stopwords(Stopwords::new(stopwords)));
    pipeline
}

fn value(weight: &Weight) -> f32 {
    let tf = weight.frequency as f32 / weight.word_count as f32;
    let idf = (weight.total_documents as f32 / weight.document_frequency as f32).log10();
    tf * idf
}

fn key_of(score: f32) -> u32 {
    score.to_bits() | 0x8000_0000
}

/// The sum of the scores of a document, as a key.
fn total(weights: &Vec<Weight>) -> u32 {
    key_of(weights.iter().map(value).sum())
}

fn search<I: Indexer>(engine: &IdxFacade<I>, query: &str) -> Vec<I::R> {
    engine.get(Query::new(query), total)
}

fn tiny_test_corpus() -> Vec<String> {
    [
        "the cat sat on the mat",
        "the cat sat",
        "the dog barked",
        "penguin is a nice animal",
    ]
    .iter()
    .map(ToString::to_string)
    .collect::<Vec<_>>()
}

fn tiny_engine() -> IdxFacade<Index<String>> {
    let tokenizer = Tokenizer::Standard(Standard::new());
    let mut engine: IdxFacade<Index<String>> =
        IdxFacade::new(10, 30, tokenizer, pipeline(words(&["the", "on"])));
    for document in ["the cat sat on the mat", "the cat sat", "the dog barked"] {
        engine.insert(Descriptor::new(document.to_string(), Document::from(document.to_string())));
    }
    engine
}

#[test]
fn test_indexer_and_engine_basic() {
    let corpus = tiny_test_corpus();
    let tokenizer = Tokenizer::Standard(Standard::new());

    let mut engine: IdxFacade<Index<String>> =
        IdxFacade::new(10, 30, tokenizer.clone(), pipeline(english_stopwords()));

    for document in corpus {
        let descriptor = Descriptor::new(document.clone(), document.into());
        engine.insert(descriptor);
    }

    let target = "cat sat";

    let collection = search(&engine, target);
    println!("collection: {collection:?}");
    assert_eq!(collection, vec!["the cat sat".to_string(), "the cat sat on the mat".to_string()]);
}

#[derive(Clone, Debug, PartialEq)]
struct Webpage {
    url: String,
    title: String,
    excerpt: String,
}

fn tiny_test_webpage_corpus() -> Vec<Webpage> {
    vec![
        Webpage {
            url: String::from("https://example.com/rust-guide"),
            title: String::from("Rust Programming Guide"),
            excerpt: String::from("A comprehensive guide to Rust programming, covering the basics to advanced topics."),
        },
        Webpage {
            url: String::from("https://example.com/webdev-trends"),
            title: String::from("Top Web Development Trends in 2024"),
            excerpt: String::from("Explore the latest trends in web development, from frameworks to tools."),
        },
        Webpage {
            url: String::from("https://example.com/ai-future"),
            title: String::from("The Future of AI"),
            excerpt: String::from("A look into how AI is shaping the future across various industries."),
        },
        Webpage {
            url: String::from("https://example.com/cybersecurity-basics"),
            title: String::from("Cybersecurity Essentials"),
            excerpt: String::from("Learn the fundamentals of cybersecurity and how to protect digital assets."),
        },
    ]
}

#[test]
fn test_indexer_and_engine_with_structure() {
    let corpus = tiny_test_webpage_corpus();
    let tokenizer = Tokenizer::Standard(Standard::new());

    let mut engine: IdxFacade<Index<Webpage>> =
        IdxFacade::new(10, 30, tokenizer.clone(), pipeline(english_stopwords()));

    for document in corpus {
        let doc = document.excerpt.clone();
        let descriptor = Descriptor::new(document.clone(), doc.into());
        engine.insert(descriptor);
    }

    let target = "AI";

    let collection = search(&engine, target);
    println!("collection: {collection:?}");
    assert_eq!(collection, vec![tiny_test_webpage_corpus()[2].clone()]);
}

#[test]
fn test_tiny_corpus() {
    let engine = tiny_engine();
    let reader = engine.index.reader();
    assert_eq!(reader.total_documents(), 3);
    assert_eq!((reader.count(0), reader.count(1), reader.count(2)), (3, 2, 2));
    assert_eq!(reader.document_frequency("cat"), Some(2));
    assert_eq!(reader.document_frequency("dog"), Some(1));
    assert_eq!(reader.document_frequency("barked"), Some(1));
    assert_eq!(reader.document_frequency("the"), None);
    assert_eq!(reader.document_frequency("on"), None);

    let scores = engine.score(Query::new("cat"));
    assert_eq!(scores.len(), 1);
    let mut cat = scores[0].clone().unwrap();
    cat.sort_by_key(|s| s.0);
    assert_eq!(cat, vec![(0, Weight::new(1, 3, 3, 2)), (1, Weight::new(1, 2, 3, 2))]);
    assert!((value(&cat[0].1) - 0.05870).abs() < 0.00001);
    assert!((value(&cat[1].1) - 0.08804).abs() < 0.00001);
}

#[test]
fn test_tiny_corpus_ranking() {
    let engine = tiny_engine();
    let reader = engine.index.reader();
    let terms = tokens(&["cat", "sat"]);
    assert_eq!(candidates(&reader, &terms), vec![0, 1]);
    assert_eq!(
        weights(&reader, &terms, 0),
        vec![Weight::new(1, 3, 3, 2), Weight::new(1, 3, 3, 2)]
    );
    assert_eq!(
        weights(&reader, &terms, 1),
        vec![Weight::new(1, 2, 3, 2), Weight::new(1, 2, 3, 2)]
    );
    assert_eq!(weights(&reader, &terms, 2), vec![]);
    assert!(total(&weights(&reader, &terms, 1)) > total(&weights(&reader, &terms, 0)));
    assert_eq!(
        search(&engine, "cat sat"),
        vec!["the cat sat".to_string(), "the cat sat on the mat".to_string()]
    );
}

#[test]
fn test_query_token_not_in_index() {
    let engine = tiny_engine();
    assert_eq!(engine.score(Query::new("xyzzy")), vec![None]);
    assert!(search(&engine, "xyzzy").is_empty());

    let empty: IdxFacade<Index<String>> =
        IdxFacade::new(1, 1, Tokenizer::Whitespace(Whitespace::new()), NormalizerPipeline::new());
    assert!(search(&empty, "xyzzy").is_empty());
}

#[test]
fn test_multi_term_scoring() {
    let tokenizer = Tokenizer::Standard(Standard::new());
    let mut engine: IdxFacade<Index<&str>> =
        IdxFacade::new(4, 3, tokenizer, NormalizerPipeline::new());
    for text in ["cat sat", "cat ran", "dog ran"] {
        engine.insert(Descriptor::new(text, Document::from(text.to_string())));
    }
    assert_eq!(search(&engine, "cat sat"), vec!["cat sat", "cat ran"]);
}

#[test]
fn test_empty_query_gives_nothing() {
    let engine = tiny_engine();
    assert!(engine.score(Query::new("")).is_empty());
    assert!(search(&engine, "").is_empty());
    assert!(engine.score(Query::new("  ,.;  ")).is_empty());
}

#[test]
fn test_stopword_query_gives_nothing() {
    let engine = tiny_engine();
    assert!(engine.score(Query::new("the on THE On")).is_empty());
    assert!(search(&engine, "the on").is_empty());
}

#[test]
fn test_text_without_terms_is_not_indexed() {
    let mut engine = tiny_engine();
    engine.insert(Descriptor::new("nothing".to_string(), Document::from("the on ... !!".to_string())));
    engine.insert(Descriptor::new("nothing".to_string(), Document::from(String::new())));
    assert_eq!(engine.index.reader().total_documents(), 3);
    engine.insert(Descriptor::new("more".to_string(), Document::from("the bird".to_string())));
    assert_eq!(engine.index.reader().total_documents(), 4);
    assert_eq!(engine.index.get(3), Some("more".to_string()));
}

#[test]
fn test_no_empty_term_reaches_the_index() {
    let mut pipeline = NormalizerPipeline::new();
    pipeline.insert(Normalizer::Punctuation(Punctuation::new()));
    let mut engine: IdxFacade<Index<u8>> =
        IdxFacade::new(4, 3, Tokenizer::Whitespace(Whitespace::new()), pipeline);
    engine.insert(Descriptor::new(1, Document::from("cat ... sat !!!".to_string())));
    let reader = engine.index.reader();
    assert_eq!(reader.total_documents(), 1);
    assert_eq!(reader.count(0), 2);
    assert_eq!(reader.document_frequency(""), None);
    assert_eq!(reader.document_frequency("cat"), Some(1));
}

#[test]
fn test_same_text_twice() {
    let mut engine: IdxFacade<Index<String>> = IdxFacade::new(
        4,
        3,
        Tokenizer::Standard(Standard::new()),
        pipeline(words(&["the"])),
    );
    for _ in 0..2 {
        engine.insert(Descriptor::new("r".to_string(), Document::from("The cat; the CAT, the dog.".to_string())));
    }
    let reader = engine.index.reader();
    assert_eq!(reader.total_documents(), 2);
    assert_eq!(reader.get_resource(0), reader.get_resource(1));
    assert_eq!((reader.count(0), reader.count(1)), (3, 3));
    for (term, frequency) in [("cat", 2), ("dog", 1)] {
        assert_eq!(reader.document_frequency(term), Some(2));
        let entry = reader.get_entry(term).unwrap();
        assert_eq!((entry.get(0), entry.get(1)), (Some(frequency), Some(frequency)));
    }
}

#[test]
fn test_term_of_more_documents_finds_more() {
    let engine = tiny_engine();
    let found_mat = search(&engine, "mat");
    let found_cat = search(&engine, "cat");
    assert_eq!(found_mat, vec!["the cat sat on the mat".to_string()]);
    assert_eq!(found_cat.len(), 2);
    assert!(found_mat.iter().all(|resource| found_cat.contains(resource)));
}

#[test]
fn test_equal_scores_rank_by_id() {
    let tokenizer = Tokenizer::Standard(Standard::new());
    let mut engine: IdxFacade<Index<&str>> =
        IdxFacade::new(4, 3, tokenizer, NormalizerPipeline::new());
    for text in ["b a", "a c", "d d", "a e"] {
        engine.insert(Descriptor::new(text, Document::from(text.to_string())));
    }
    assert_eq!(search(&engine, "a"), vec!["b a", "a c", "a e"]);
    assert_eq!(engine.get(Query::new("a d"), |weights| weights.len() as u32), vec!["b a", "a c", "d d", "a e"]);
    assert_eq!(
        engine.get(Query::new("a d d"), |weights| weights.len() as u32),
        vec!["d d", "b a", "a c", "a e"]
    );
}

#[test]
fn test_sort_by_key() {
    let items = vec![
        Ranked::new(4, 10),
        Ranked::new(1, 30),
        Ranked::new(3, 10),
        Ranked::new(0, 20),
        Ranked::new(2, 30),
    ];
    let down: Vec<(usize, u32)> =
        sort_by(&items, Order::Descending).iter().map(|r| (r.index, r.key)).collect();
    assert_eq!(down, vec![(1, 30), (2, 30), (0, 20), (3, 10), (4, 10)]);
    let up: Vec<(usize, u32)> =
        sort_by(&items, Order::Ascending).iter().map(|r| (r.index, r.key)).collect();
    assert_eq!(up, vec![(3, 10), (4, 10), (0, 20), (1, 30), (2, 30)]);
    assert!(sort_by(&Vec::new(), Order::Descending).is_empty());
    assert!(Ranked::new(1, 5).comes_before(&Ranked::new(0, 4), Order::Descending));
    assert!(!Ranked::new(1, 5).comes_before(&Ranked::new(0, 5), Order::Descending));
    assert!(Ranked::new(1, 4).comes_before(&Ranked::new(0, 5), Order::Ascending));
}

#[test]
fn test_sort_by_key_many() {
    let mut items = Vec::new();
    let mut seed: u32 = 12345;
    for index in 0..2000usize {
        seed = seed.wrapping_mul(1103515245).wrapping_add(12345);
        items.push(Ranked::new(index, (seed >> 16) % 50));
    }
    let out = sort_by(&items, Order::Descending);
    assert_eq!(out.len(), items.len());
    for pair in out.windows(2) {
        assert!(pair[0].comes_before(&pair[1], Order::Descending));
        assert!(pair[0].key > pair[1].key || pair[0].index < pair[1].index);
    }
    let mut ids: Vec<usize> = out.iter().map(|r| r.index).collect();
    ids.sort();
    assert_eq!(ids, (0..2000).collect::<Vec<usize>>());
    for ranked in &out {
        assert_eq!(items[ranked.index], *ranked);
    }
}

#[test]
fn test_doc_set() {
    let mut set = DocSet::new();
    assert!(!set.contains(3));
    set.insert(3);
    set.insert(3);
    assert!(set.contains(3));
    assert!(!set.contains(0));
}

#[test]
fn test_stopwords_from_lines() {
    let stopwords = Stopwords::from_lines("the\n\non\r\n\nand\n");
    assert!(stopwords.is_stopword(&Token::from("The")));
    assert!(stopwords.is_stopword(&Token::from("on")));
    assert!(stopwords.is_stopword(&Token::from("AND")));
    assert!(!stopwords.is_stopword(&Token::from("")));
    assert!(!stopwords.is_stopword(&Token::from("cat")));
    assert!(!Stopwords::from_lines("").is_stopword(&Token::from("the")));
}

#[test]
fn test_retain_non_empty() {
    let mut list = tokens(&["", "a", "", "", "b", ""]);
    list.retain_non_empty();
    assert_eq!(list, tokens(&["a", "b"]));
    assert_eq!(list.get(1).unwrap().as_str(), "b");
    assert!(list.get(2).is_none());
    list.push(Token::from("a"));
    assert_eq!(list.term_count(&Token::from("a")), 2);
}

#[test]
fn test_config_parser_from_str() {
    assert_eq!(ConfigParser::from_str("json").unwrap(), ConfigParser::Json);
    assert_eq!(ConfigParser::from_str("toml").unwrap(), ConfigParser::Toml);
    assert_eq!(ConfigParser::from_str("yaml").unwrap(), ConfigParser::Yaml);
    for extension in ["", "JSON", "jso", "jsonx", "yml", "txt"] {
        match ConfigParser::from_str(extension) {
            Err(Error::Config(ConfigError::FileFormat(message))) => {
                assert_eq!(message, "Unsupported file format")
            }
            other => panic!("{other:?}"),
        }
    }
}

#[test]
fn test_config_parser_from_extension() {
    assert_eq!(ConfigParser::from_extension(Some("json")).unwrap(), ConfigParser::Json);
    assert_eq!(ConfigParser::from_extension(Some("yaml")).unwrap(), ConfigParser::Yaml);
    assert!(matches!(
        ConfigParser::from_extension(None),
        Err(Error::Config(ConfigError::MissingExtension))
    ));
    assert!(matches!(
        ConfigParser::from_extension(Some("")),
        Err(Error::Config(ConfigError::FileFormat(_)))
    ));
}

#[test]
fn test_error_conversions() {
    assert!(matches!(
        Error::from(ConfigError::MissingExtension),
        Error::Config(ConfigError::MissingExtension)
    ));
    assert!(matches!(
        Error::from(IoError::File(std::io::ErrorKind::NotFound)),
        Error::Io(IoError::File(std::io::ErrorKind::NotFound))
    ));
    assert!(matches!(
        Error::config(ConfigError::Tokenizer("t".to_string())),
        Error::Config(ConfigError::Tokenizer(_))
    ));
    assert!(matches!(
        Error::io(IoError::Reader(std::io::ErrorKind::InvalidInput)),
        Error::Io(IoError::Reader(std::io::ErrorKind::InvalidInput))
    ));
    assert_eq!(
        ConfigError::Serialization("a".to_string()),
        ConfigError::Serialization("a".to_string())
    );
    assert_ne!(
        ConfigError::File(std::io::ErrorKind::NotFound),
        ConfigError::Reader(std::io::ErrorKind::NotFound)
    );
}

#[test]
fn test_config_defaults_and_steps() {
    let threads = ThreadConfig::default();
    assert_eq!((threads.read, threads.index, threads._write), (1, 2, 1));
    assert_eq!(TokenizerConfig::default().mode, TokenizerMode::Standard);
    assert!(matches!(TokenizerConfig::default().tokenizer(), Tokenizer::Standard(_)));
    assert!(matches!(
        TokenizerConfig { mode: TokenizerMode::Whitespace }.tokenizer(),
        Tokenizer::Whitespace(_)
    ));

    assert!(matches!(
        NormalizerConfig::Case(CaseConfig::Lowercase).step(),
        Step::Insert(Normalizer::Lowercase(_))
    ));
    assert!(matches!(
        NormalizerConfig::Case(CaseConfig::Uppercase).step(),
        Step::Insert(Normalizer::Uppercase(_))
    ));
    assert!(matches!(
        NormalizerConfig::Punctuation(true).step(),
        Step::Insert(Normalizer::Punctuation(_))
    ));
    assert!(matches!(NormalizerConfig::Punctuation(false).step(), Step::Skip));

    let from_file = StopwordsConfig { file: Some("en.txt".to_string()), words: Some(words(&["a"])) };
    match NormalizerConfig::Stopwords(from_file).step() {
        Step::LoadStopwords(path) => assert_eq!(path, "en.txt"),
        _ => panic!("the file comes first"),
    }
    let from_words = StopwordsConfig { file: None, words: Some(words(&["a"])) };
    match NormalizerConfig::Stopwords(from_words).step() {
        Step::Insert(Normalizer::Stopwords(set)) => {
            assert!(set.is_stopword(&Token::from("A")));
            assert!(!set.is_stopword(&Token::from("b")));
        }
        _ => panic!("the words are given"),
    }
    assert!(matches!(
        NormalizerConfig::Stopwords(StopwordsConfig { file: None, words: None }).step(),
        Step::Fail
    ));

    let pairs = vec![("a".to_string(), "b".to_string())];
    assert!(matches!(
        NormalizerConfig::Replacer(ReplacerConfig { file: Some("r.json".to_string()), pairs: Some(pairs.clone()) }).step(),
        Step::Skip
    ));
    match NormalizerConfig::Replacer(ReplacerConfig { file: None, pairs: Some(pairs) }).step() {
        Step::Insert(Normalizer::Replacer(replacer)) => {
            assert_eq!(replacer.replacement(&Token::from("a")).as_str(), "b");
            assert_eq!(replacer.replacement(&Token::from("b")).as_str(), "b");
        }
        _ => panic!("the pairs are given"),
    }
    assert!(matches!(
        NormalizerConfig::Replacer(ReplacerConfig { file: None, pairs: None }).step(),
        Step::Fail
    ));
}
