//! The index: the store, the inverted index and the term counter under one
//! roof, written through a writer and read through a reader.

use crate::map::TermCounter;
use crate::posting::InvertedIndex;
use crate::reader::{IndexReader, ReaderContext};
use crate::state::{indexable, lemma_insert_wf, IndexState};
use crate::store::Store;
use crate::token::Tokens;
use crate::writer::{emptied, IndexWriter, ResourceState, WriterContext};
use vstd::prelude::*;

verus! {

/// What an index offers to the engine.
pub trait Indexer: Sized {
    /// The resources that the index holds.
    type R: Clone;

    /// What the index holds.
    spec fn state(&self) -> IndexState<Self::R>;

    /// Whether the index is well formed and at rest: no insertion is under
    /// way.
    spec fn wf(&self) -> bool;

    /// What an index at rest holds is well formed: every document has at
    /// least one token, and every posting is for a document of the store,
    /// with a frequency from one to the number of tokens of that document.
    proof fn lemma_wf(&self)
        requires
            self.wf(),
        ensures
            self.state().wf(),
    ;

    /// An index without documents. The two numbers are advice on its size.
    fn new(capacity: usize, threshold: usize) -> (r: Self)
        ensures
            r.wf(),
            r.state() == IndexState::<Self::R>::empty(),
    ;

    /// Indexes one document: `resource`, whose text has `word_count`
    /// tokens, with the terms `tokens`. The texts of the tokens move into
    /// the index, and the tokens are left empty.
    fn insert(&mut self, resource: Self::R, word_count: usize, tokens: &mut Tokens)
        requires
            old(self).wf(),
            indexable(word_count, old(tokens)@),
            old(self).state().store.len() < usize::MAX,
        ensures
            final(self).wf(),
            final(self).state() == old(self).state().insert(resource, word_count, old(tokens)@),
            final(tokens)@ == emptied(old(tokens)@.len()),
    ;

    /// A copy of the resource of the document `index`, if there is such a
    /// document.
    fn get(&self, index: usize) -> (r: Option<Self::R>)
        ensures
            index < self.state().store.len() ==> r is Some && cloned(
                self.state().store[index as int].resource,
                r->0,
            ),
            index >= self.state().store.len() ==> r is None,
    ;

    /// Read access to the index. What is read of an index at rest is well
    /// formed.
    fn reader(&self) -> (r: ReaderContext<'_, Self::R>)
        ensures
            r.state() == self.state(),
            self.wf() ==> r.state().wf(),
    ;
}

/// The three parts of an index.
pub struct CoreIndex<R> {
    pub store: Store<R>,
    pub index: InvertedIndex,
    pub count: TermCounter,
}

impl<R> CoreIndex<R> {
    /// What the index holds.
    pub open spec fn state(&self) -> IndexState<R> {
        IndexState { store: self.store@, postings: self.index@ }
    }

    /// The index is well formed, and its term counter is empty, as it is
    /// between two insertions.
    pub open spec fn wf(&self) -> bool {
        &&& self.state().wf()
        &&& self.count@ == Map::<Seq<char>, usize>::empty()
    }

    pub fn with_capacity(capacity: usize) -> (r: Self)
        ensures
            r.wf(),
            r.state() == IndexState::<R>::empty(),
    {
        let r = CoreIndex {
            store: Store::with_capacity(capacity),
            index: InvertedIndex::with_capacity(capacity),
            count: TermCounter::new(),
        };
        assert(r.state().store =~= Seq::<crate::store::Resource<R>>::empty());
        r
    }

    /// Read access to the three parts.
    pub fn reader(&self) -> (r: IndexReader<'_, R>)
        ensures
            r.state() == self.state(),
            r.count@ == self.count@,
    {
        IndexReader::new(&self.store, &self.index, &self.count)
    }

    /// Write access to the three parts: what the writer leaves is what the
    /// index then holds.
    pub fn writer(&mut self) -> (w: IndexWriter<'_, R>)
        ensures
            w.store@ == old(self).store@,
            w.index@ == old(self).index@,
            w.count@ == old(self).count@,
            final(self).store == *final(w.store),
            final(self).index == *final(w.index),
            final(self).count == *final(w.count),
    {
        IndexWriter::new(&mut self.store, &mut self.index, &mut self.count)
    }
}

/// Advice on the size of an index.
pub struct IndexOptions {
    pub capacity: usize,
    pub threshold: usize,
}

/// An index of resources of the type `R`.
pub struct Index<R: Clone> {
    pub core: CoreIndex<R>,
    pub capacity: usize,
    pub threshold: usize,
}

impl<R: Clone> Index<R> {
    /// An index without documents, of the size that `options` advise, or of
    /// the capacity 10 000 with the threshold 9 500 where they advise none.
    pub fn with_options(options: Option<IndexOptions>) -> (r: Self)
        ensures
            r.core.wf(),
            r.core.state() == IndexState::<R>::empty(),
            r.capacity == match options {
                Some(o) => o.capacity,
                None => 10_000,
            },
            r.threshold == match options {
                Some(o) => o.threshold,
                None => 9_500,
            },
    {
        match options {
            Some(options) => {
                let capacity = options.capacity;
                let threshold = options.threshold;
                Index { core: CoreIndex::with_capacity(capacity), capacity, threshold }
            },
            None => Index {
                core: CoreIndex::with_capacity(10_000),
                threshold: 9_500,
                capacity: 10_000,
            },
        }
    }

    /// The number of documents that hold `term`, if the term is in the
    /// index.
    pub fn document_frequency(&self, term: &str) -> (r: Option<usize>)
        ensures
            (r is Some) == self.core.state().postings.contains_key(term@),
            r matches Some(n) ==> n == self.core.state().document_frequency(term@),
    {
        let reader = self.core.reader();
        let ctx = ReaderContext::new(reader);
        ctx.document_frequency(term)
    }

    /// The number of indexed documents.
    pub fn total_docs(&self) -> (n: usize)
        ensures
            n == self.core.state().total_documents(),
    {
        let reader = self.core.reader();
        let ctx = ReaderContext::new(reader);
        ctx.total_documents()
    }
}

impl<R: Clone> Indexer for Index<R> {
    type R = R;

    open spec fn state(&self) -> IndexState<R> {
        self.core.state()
    }

    open spec fn wf(&self) -> bool {
        self.core.wf()
    }

    proof fn lemma_wf(&self) {
    }

    fn new(capacity: usize, threshold: usize) -> (r: Self)
        ensures
            r.capacity == capacity,
            r.threshold == threshold,
    {
        Index { core: CoreIndex::with_capacity(capacity), capacity, threshold }
    }

    fn insert(&mut self, resource: R, word_count: usize, tokens: &mut Tokens)
        ensures
            final(self).capacity == old(self).capacity,
            final(self).threshold == old(self).threshold,
    {
        proof {
            lemma_insert_wf(old(self).state(), resource, word_count, old(tokens)@);
        }
        let writer = self.core.writer();
        let resource_entry = WriterContext::<ResourceState, R>::new(writer);
        let mut term_entry = resource_entry.entry(resource, word_count);
        term_entry.insert_terms(tokens);
        term_entry.reset_counter()
    }

    fn get(&self, index: usize) -> (r: Option<R>) {
        let ctx = self.reader();
        ctx.get_resource(index)
    }

    fn reader(&self) -> (r: ReaderContext<'_, R>) {
        let reader = self.core.reader();
        ReaderContext::new(reader)
    }
}

} // verus!
