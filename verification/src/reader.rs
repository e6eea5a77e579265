//! Read access to an index.

use crate::map::TermCounter;
use crate::posting::{IdfEntry, InvertedIndex};
use crate::state::IndexState;
use crate::store::{Resource, Store};
use vstd::prelude::*;

verus! {

/// The three parts of an index, borrowed for reading.
pub struct IndexReader<'r, R> {
    pub store: &'r Store<R>,
    pub index: &'r InvertedIndex,
    pub count: &'r TermCounter,
}

impl<'r, R> IndexReader<'r, R> {
    pub fn new(store: &'r Store<R>, index: &'r InvertedIndex, count: &'r TermCounter) -> (r: Self)
        ensures
            r.store == store,
            r.index == index,
            r.count == count,
    {
        IndexReader { store, index, count }
    }

    /// What the index holds.
    pub open spec fn state(&self) -> IndexState<R> {
        IndexState { store: self.store@, postings: self.index@ }
    }

    /// The number of indexed documents.
    pub fn total_documents(&self) -> (n: usize)
        ensures
            n == self.state().total_documents(),
    {
        self.store.len()
    }

    /// The number of documents that hold `term`, if the term is in the
    /// index.
    pub fn document_frequency(&self, term: &str) -> (r: Option<usize>)
        ensures
            (r is Some) == self.state().postings.contains_key(term@),
            r matches Some(n) ==> n == self.state().document_frequency(term@),
    {
        match self.index.get_term_entries(term) {
            Some(entry) => Some(entry.count()),
            None => None,
        }
    }

    /// The posting list of `term`, if the term is in the index.
    pub fn get_term_entries(&self, term: &str) -> (r: Option<&IdfEntry>)
        ensures
            (r is Some) == self.state().postings.contains_key(term@),
            r matches Some(entry) ==> entry@ == self.state().postings[term@],
    {
        self.index.get_term_entries(term)
    }

    /// The entry of the document `index`, if there is such a document.
    pub fn get_index(&self, index: usize) -> (r: Option<&Resource<R>>)
        ensures
            index < self.state().store.len() ==> r == Some(&self.state().store[index as int]),
            index >= self.state().store.len() ==> r is None,
    {
        self.store.get(index)
    }

    /// The count, in the term counter, of a term that was counted at least
    /// once.
    pub fn get_word_frequency_unchecked(&self, term: &str) -> (n: usize)
        requires
            self.count@.contains_key(term@),
        ensures
            n == self.count@[term@],
    {
        self.count.get_unchecked(term)
    }
}

/// A reader, as the scorers use it.
pub struct ReaderContext<'rctx, R> {
    pub reader: IndexReader<'rctx, R>,
}

impl<'rctx, R> ReaderContext<'rctx, R> {
    pub fn new(reader: IndexReader<'rctx, R>) -> (r: Self)
        ensures
            r.reader == reader,
    {
        ReaderContext { reader }
    }

    /// What the index holds.
    pub open spec fn state(&self) -> IndexState<R> {
        self.reader.state()
    }

    /// The number of indexed documents.
    pub fn total_documents(&self) -> (n: usize)
        ensures
            n == self.state().total_documents(),
    {
        self.reader.total_documents()
    }

    /// The number of documents that hold `term`, if the term is in the
    /// index.
    pub fn document_frequency(&self, term: &str) -> (r: Option<usize>)
        ensures
            (r is Some) == self.state().postings.contains_key(term@),
            r matches Some(n) ==> n == self.state().document_frequency(term@),
    {
        self.reader.document_frequency(term)
    }

    /// The number of tokens of the document `index`: at least one in a
    /// well-formed index, where no document is without tokens.
    pub fn count(&self, index: usize) -> (n: usize)
        requires
            index < self.state().store.len(),
        ensures
            n == self.state().count(index),
            self.state().wf() ==> n >= 1,
    {
        self.reader.store.get(index).unwrap().count()
    }

    /// The posting list of `term`, if the term is in the index.
    pub fn get_entry(&self, term: &str) -> (r: Option<&IdfEntry>)
        ensures
            (r is Some) == self.state().postings.contains_key(term@),
            r matches Some(entry) ==> entry@ == self.state().postings[term@],
    {
        self.reader.get_term_entries(term)
    }

    /// What `f` makes of the posting list of `term`, if the term is in the
    /// index.
    pub fn get_entry_with<O, F: FnOnce(&IdfEntry) -> O>(&self, term: &str, f: F) -> (r: Option<O>)
        requires
            forall|entry: &IdfEntry| f.requires((entry,)),
        ensures
            (r is Some) == self.state().postings.contains_key(term@),
            r is Some ==> exists|entry: &IdfEntry|
                entry@ == self.state().postings[term@] && f.ensures((entry,), r->0),
    {
        self.reader.index.get_entry_with(term, f)
    }
}

impl<'rctx, R: Clone> ReaderContext<'rctx, R> {
    /// A copy of the resource of the document `index`, if there is such a
    /// document.
    pub fn get_resource(&self, index: usize) -> (r: Option<R>)
        ensures
            index < self.state().store.len() ==> r is Some && cloned(
                self.state().store[index as int].resource,
                r->0,
            ),
            index >= self.state().store.len() ==> r is None,
    {
        self.reader.store.get_path(index)
    }
}

} // verus!
