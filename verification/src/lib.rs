//! An in-memory, single-writer text search index.
//!
//! Text is split into tokens, the tokens are rewritten by a pipeline of
//! normalizers, and the surviving terms are recorded in an inverted index
//! with their per-document frequencies. Every executable function carries a
//! contract over a mathematical model of the data it touches.

pub mod text;
pub mod token;
pub mod tokenizer;
pub mod normalizer;
pub mod util;
pub mod table;
pub mod store;
pub mod posting;
pub mod map;
pub mod state;
pub mod writer;
pub mod reader;
pub mod index;
pub mod score;
pub mod aggregate;
pub mod document;
pub mod query;
pub mod descriptor;
pub mod search;
pub mod engine;
pub mod filter;
pub mod rank;
pub mod error;
pub mod config;
