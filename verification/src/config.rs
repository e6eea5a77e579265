//! The options that a host may pass through, and what they stand for.

use crate::error::{ConfigError, Error};
use crate::normalizer::case::{Lowercase, Uppercase};
use crate::normalizer::punctuation::Punctuation;
use crate::normalizer::replace::{pair_map, TokenReplacer};
use crate::normalizer::stopwords::word_set;
use crate::normalizer::{Normalizer, Stopwords};
use crate::tokenizer::{Standard, Tokenizer, Whitespace};
use vstd::prelude::*;

verus! {

/// The formats of a configuration file.
#[derive(Clone, Copy, Debug, PartialEq, Eq, Structural)]
pub enum ConfigParser {
    Json,
    Toml,
    Yaml,
}

/// Whether two texts are the same.
pub fn same_text(a: &str, b: &str) -> (r: bool)
    ensures
        r == (a@ == b@),
{
    let left = a.to_owned();
    let right = b.to_owned();
    left == right
}

/// Whether `r` is the answer to the file extension `extension`: the format
/// for `json`, `toml` and `yaml`, and a refusal for any other.
pub open spec fn answers_extension(extension: Seq<char>, r: Result<ConfigParser, Error>) -> bool {
    if extension == "json"@ {
        r == Ok::<ConfigParser, Error>(ConfigParser::Json)
    } else if extension == "toml"@ {
        r == Ok::<ConfigParser, Error>(ConfigParser::Toml)
    } else if extension == "yaml"@ {
        r == Ok::<ConfigParser, Error>(ConfigParser::Yaml)
    } else {
        r matches Err(Error::Config(ConfigError::FileFormat(message))) && message@
            == "Unsupported file format"@
    }
}

impl ConfigParser {
    /// The format of a file by its extension, if it has one: a file without
    /// an extension is refused as such, and one with an extension gets the
    /// answer to that extension.
    pub fn from_extension(extension: Option<&str>) -> (r: Result<Self, Error>)
        ensures
            match extension {
                Some(e) => answers_extension(e@, r),
                None => r == Err::<Self, Error>(Error::Config(ConfigError::MissingExtension)),
            },
    {
        match extension {
            Some(extension) => ConfigParser::from_str(extension),
            None => Err(Error::Config(ConfigError::MissingExtension)),
        }
    }

    /// The format that the file extension `extension` stands for: `json`,
    /// `toml` or `yaml`. Any other extension is refused.
    pub fn from_str(extension: &str) -> (r: Result<Self, Error>)
        ensures
            answers_extension(extension@, r),
    {
        proof {
            reveal_strlit("json");
            reveal_strlit("toml");
            reveal_strlit("yaml");
            assert("json"@[0] == 'j' && "toml"@[0] == 't' && "yaml"@[0] == 'y');
        }
        if same_text(extension, "json") {
            Ok(ConfigParser::Json)
        } else if same_text(extension, "toml") {
            Ok(ConfigParser::Toml)
        } else if same_text(extension, "yaml") {
            Ok(ConfigParser::Yaml)
        } else {
            Err(Error::Config(ConfigError::FileFormat("Unsupported file format".to_owned())))
        }
    }
}

/// The numbers of threads of a host. Each is at least one.
#[derive(Clone, Copy, Debug)]
pub struct ThreadConfig {
    pub read: usize,
    pub index: usize,
    pub _write: usize,
}

impl Default for ThreadConfig {
    fn default() -> (r: Self)
        ensures
            r.read == 1,
            r.index == 2,
            r._write == 1,
    {
        ThreadConfig { read: 1, index: 2, _write: 1 }
    }
}

/// The choice of a tokenizer.
#[derive(Clone, Copy, Debug, PartialEq, Eq, Structural)]
pub enum TokenizerMode {
    Standard,
    Whitespace,
}

#[derive(Clone, Copy, Debug)]
pub struct TokenizerConfig {
    pub mode: TokenizerMode,
}

impl Default for TokenizerConfig {
    fn default() -> (r: Self)
        ensures
            r.mode == TokenizerMode::Standard,
    {
        TokenizerConfig { mode: TokenizerMode::Standard }
    }
}

impl TokenizerConfig {
    /// The tokenizer that the mode names.
    pub fn tokenizer(&self) -> (r: Tokenizer)
        ensures
            self.mode == TokenizerMode::Standard ==> r is Standard,
            self.mode == TokenizerMode::Whitespace ==> r is Whitespace,
    {
        match self.mode {
            TokenizerMode::Standard => Tokenizer::Standard(Standard::new()),
            TokenizerMode::Whitespace => Tokenizer::Whitespace(Whitespace::new()),
        }
    }
}

/// The choice of a case folder.
#[derive(Clone, Copy, Debug, PartialEq, Eq, Structural)]
pub enum CaseConfig {
    Lowercase,
    Uppercase,
}

/// Stop words: the path of a file that lists them, or the words
/// themselves.
#[derive(Debug)]
pub struct StopwordsConfig {
    pub file: Option<String>,
    pub words: Option<Vec<String>>,
}

/// Replacements: the path of a file that lists them, or the pairs
/// themselves.
#[derive(Debug)]
pub struct ReplacerConfig {
    pub file: Option<String>,
    pub pairs: Option<Vec<(String, String)>>,
}

#[derive(Debug)]
pub struct StemmerConfig {}

/// One entry of the list of normalizers.
#[derive(Debug)]
pub enum NormalizerConfig {
    Case(CaseConfig),
    Replacer(ReplacerConfig),
    Punctuation(bool),
    Stopwords(StopwordsConfig),
}

/// The whole configuration.
#[derive(Debug)]
pub struct Config {
    pub thread: ThreadConfig,
    pub tokenizer: TokenizerConfig,
    pub normalizer: Vec<NormalizerConfig>,
}

/// What an entry of the list of normalizers asks of the host.
pub enum Step {
    /// Insert this normalizer into the pipeline.
    Insert(Normalizer),
    /// Read the file of this path and insert the stop words that it lists.
    LoadStopwords(String),
    /// Nothing.
    Skip,
    /// Give up: the entry names neither a file nor values.
    Fail,
}

impl NormalizerConfig {
    /// What this entry asks for. A case folder is inserted. The punctuation
    /// stripper is inserted if the entry says `true`. Stop words come from
    /// the file, if one is named, else from the words. Replacements come
    /// from the pairs unless a file is named, which is passed over.
    pub fn step(self) -> (r: Step)
        ensures
            match self {
                NormalizerConfig::Case(CaseConfig::Lowercase) => r matches Step::Insert(
                    Normalizer::Lowercase(_),
                ),
                NormalizerConfig::Case(CaseConfig::Uppercase) => r matches Step::Insert(
                    Normalizer::Uppercase(_),
                ),
                NormalizerConfig::Punctuation(status) => if status {
                    r matches Step::Insert(Normalizer::Punctuation(_))
                } else {
                    r is Skip
                },
                NormalizerConfig::Stopwords(config) => match (config.file, config.words) {
                    (Some(path), _) => r matches Step::LoadStopwords(p) && p == path,
                    (None, Some(words)) => r matches Step::Insert(Normalizer::Stopwords(s)) && s@
                        == word_set(words@, words@.len() as int),
                    (None, None) => r is Fail,
                },
                NormalizerConfig::Replacer(config) => match (config.file, config.pairs) {
                    (Some(_), _) => r is Skip,
                    (None, Some(pairs)) => r matches Step::Insert(Normalizer::Replacer(t)) && t@
                        == pair_map(pairs@, pairs@.len() as int),
                    (None, None) => r is Fail,
                },
            },
    {
        match self {
            NormalizerConfig::Case(case) => match case {
                CaseConfig::Lowercase => Step::Insert(Normalizer::Lowercase(Lowercase::new())),
                CaseConfig::Uppercase => Step::Insert(Normalizer::Uppercase(Uppercase::new())),
            },
            NormalizerConfig::Stopwords(config) => {
                match config.file {
                    Some(path) => Step::LoadStopwords(path),
                    None => match config.words {
                        Some(words) => Step::Insert(Normalizer::Stopwords(Stopwords::new(words))),
                        None => Step::Fail,
                    },
                }
            },
            NormalizerConfig::Replacer(config) => {
                match config.file {
                    Some(_) => Step::Skip,
                    None => match config.pairs {
                        Some(pairs) => Step::Insert(
                            Normalizer::Replacer(TokenReplacer::new(pairs)),
                        ),
                        None => Step::Fail,
                    },
                }
            },
            NormalizerConfig::Punctuation(status) => {
                if status {
                    Step::Insert(Normalizer::Punctuation(Punctuation::new()))
                } else {
                    Step::Skip
                }
            },
        }
    }
}

} // verus!
