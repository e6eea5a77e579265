//! Write access to an index.
//!
//! A writer holds the three parts of an index for the time of one
//! insertion. The writer context leads through the insertion: it begins
//! with the resource, takes the terms of the resource one by one, and ends
//! with the term counter reset.

use crate::map::{count_of, TermCounter};
use crate::posting::{entries_of, InvertedIndex, TfEntry};
use crate::store::{Resource, Store};
use crate::state::{
    index_tokens, lemma_index_tokens_none, lemma_index_tokens_push, lemma_occurrences_bounds,
    lemma_term_counts_push, term_counts,
};
use crate::token::{texts, Token, Tokens};
use std::marker::PhantomData;
use vstd::prelude::*;

verus! {

/// The three parts of an index, borrowed for writing.
pub struct IndexWriter<'w, R> {
    pub store: &'w mut Store<R>,
    pub index: &'w mut InvertedIndex,
    pub count: &'w mut TermCounter,
}

impl<'w, R> IndexWriter<'w, R> {
    pub fn new(
        store: &'w mut Store<R>,
        index: &'w mut InvertedIndex,
        count: &'w mut TermCounter,
    ) -> (w: Self)
        ensures
            w.store@ == old(store)@,
            w.index@ == old(index)@,
            w.count@ == old(count)@,
            *final(w.store) == *final(store),
            *final(w.index) == *final(index),
            *final(w.count) == *final(count),
    {
        IndexWriter { store, index, count }
    }

    /// Counts one more occurrence of `term` in the term counter.
    pub fn insert_counter(&mut self, term: String)
        requires
            count_of(old(self).count@, term@) < usize::MAX,
        ensures
            final(self).count@ == old(self).count@.insert(
                term@,
                (count_of(old(self).count@, term@) + 1) as usize,
            ),
            final(self).store@ == old(self).store@,
            final(self).index@ == old(self).index@,
            *final(final(self).store) == *final(old(self).store),
            *final(final(self).index) == *final(old(self).index),
            *final(final(self).count) == *final(old(self).count),
    {
        self.count.insert(term);
    }

    /// Appends `entry` to the store and gives its document id.
    pub fn insert_resource(&mut self, entry: Resource<R>) -> (id: usize)
        ensures
            id == old(self).store@.len(),
            final(self).store@ == old(self).store@.push(entry),
            final(self).index@ == old(self).index@,
            final(self).count@ == old(self).count@,
            *final(final(self).store) == *final(old(self).store),
            *final(final(self).index) == *final(old(self).index),
            *final(final(self).count) == *final(old(self).count),
    {
        self.store.insert(entry)
    }

    /// Records the posting `entry` under `term` in the inverted index.
    pub fn insert_term(&mut self, term: String, entry: TfEntry)
        ensures
            final(self).index@ == old(self).index@.insert(
                term@,
                entries_of(old(self).index@, term@).insert(entry.index, entry.frequency.0),
            ),
            final(self).store@ == old(self).store@,
            final(self).count@ == old(self).count@,
            *final(final(self).store) == *final(old(self).store),
            *final(final(self).index) == *final(old(self).index),
            *final(final(self).count) == *final(old(self).count),
    {
        self.index.add_term(term, entry)
    }

    /// Resets the term counter.
    pub fn reset_count(&mut self)
        ensures
            final(self).count@ == Map::<Seq<char>, usize>::empty(),
            final(self).store@ == old(self).store@,
            final(self).index@ == old(self).index@,
            *final(final(self).store) == *final(old(self).store),
            *final(final(self).index) == *final(old(self).index),
            *final(final(self).count) == *final(old(self).count),
    {
        self.count.reset()
    }

    /// The count of a term that was counted at least once.
    pub fn get_word_frequency_unchecked(&self, term: &str) -> (n: usize)
        requires
            self.count@.contains_key(term@),
        ensures
            n == old(self.count)@[term@],
    {
        self.count.get_unchecked(term)
    }
}

/// `n` tokens without text: what is left of a token sequence whose texts
/// have moved into the index.
pub open spec fn emptied(n: nat) -> Seq<Seq<char>> {
    Seq::new(n, |i: int| Seq::<char>::empty())
}

/// The state of a writer context that has no resource yet.
pub struct ResourceState;

/// The state of a writer context that has no file yet.
pub type FileEntryState = ResourceState;

/// The state of a writer context that takes the terms of the resource with
/// the document id `index`.
#[derive(Clone, Copy)]
pub struct TermEntryState {
    pub index: usize,
}

/// A writer in one of its two states.
pub struct WriterContext<'wctx, S, R> {
    pub writer: IndexWriter<'wctx, R>,
    pub data: Option<S>,
    pub _marker: PhantomData<S>,
}

impl<'wctx, S, R> WriterContext<'wctx, S, R> {
    pub fn new(writer: IndexWriter<'wctx, R>) -> (r: Self)
        ensures
            r.writer == writer,
            r.data is None,
    {
        WriterContext { writer, data: None, _marker: PhantomData }
    }

    pub fn new_with_data(writer: IndexWriter<'wctx, R>, data: S) -> (r: Self)
        ensures
            r.writer == writer,
            r.data == Some(data),
    {
        WriterContext { writer, data: Some(data), _marker: PhantomData }
    }
}

impl<'wctx, R> WriterContext<'wctx, ResourceState, R> {
    /// Begins the insertion of `resource`, whose text has `word_count`
    /// tokens: the resource is appended to the store, and the context that
    /// comes back takes its terms. The term counter is empty, as the
    /// insertion before has left it.
    pub fn entry(self, resource: R, word_count: usize) -> (r: WriterContext<
        'wctx,
        TermEntryState,
        R,
    >)
        requires
            word_count >= 1,
            old(self.writer.count)@ == Map::<Seq<char>, usize>::empty(),
        ensures
            r.data == Some(TermEntryState { index: old(self.writer.store)@.len() as usize }),
            r.writer.store@ == old(self.writer.store)@.push(
                Resource { resource, count: word_count },
            ),
            r.writer.index@ == old(self.writer.index)@,
            r.writer.count@ == old(self.writer.count)@,
            *final(r.writer.store) == *final(self.writer.store),
            *final(r.writer.index) == *final(self.writer.index),
            *final(r.writer.count) == *final(self.writer.count),
    {
        let mut writer = self.writer;
        let entry = Resource::new(resource, word_count);
        let index = writer.insert_resource(entry);
        WriterContext::<'wctx, TermEntryState, R>::new_with_data(writer, TermEntryState { index })
    }
}

impl<'wctx, R> WriterContext<'wctx, TermEntryState, R> {
    /// Takes one term of the resource: the term is counted, and its posting
    /// for the resource gets the count as its frequency.
    pub fn insert_term(&mut self, term: String)
        requires
            old(self).data is Some,
            count_of(old(self).writer.count@, term@) < usize::MAX,
        ensures
            final(self).data == old(self).data,
            final(self).writer.store@ == old(self).writer.store@,
            final(self).writer.count@ == old(self).writer.count@.insert(
                term@,
                (count_of(old(self).writer.count@, term@) + 1) as usize,
            ),
            final(self).writer.index@ == old(self).writer.index@.insert(
                term@,
                entries_of(old(self).writer.index@, term@).insert(
                    old(self).data->0.index,
                    (count_of(old(self).writer.count@, term@) + 1) as usize,
                ),
            ),
            *final(final(self).writer.store) == *final(old(self).writer.store),
            *final(final(self).writer.index) == *final(old(self).writer.index),
            *final(final(self).writer.count) == *final(old(self).writer.count),
    {
        self.writer.insert_counter(term.clone());
        let word_frequency = self.writer.get_word_frequency_unchecked(term.as_str());
        let index = self.data.unwrap().index;
        let entry = TfEntry::new(index, word_frequency);
        self.writer.insert_term(term, entry)
    }

    /// Takes what `f` hands out as one term of the resource.
    pub fn insert_term_with<F: FnOnce() -> Token>(&mut self, f: F)
        requires
            old(self).data is Some,
            f.requires(()),
            forall|token: Token|
                f.ensures((), token) ==> count_of(old(self).writer.count@, token@) < usize::MAX,
        ensures
            final(self).data == old(self).data,
            final(self).writer.store@ == old(self).writer.store@,
            exists|token: Token|
                f.ensures((), token) && final(self).writer.count@ == old(
                    self,
                ).writer.count@.insert(
                    token@,
                    (count_of(old(self).writer.count@, token@) + 1) as usize,
                ) && final(self).writer.index@ == old(self).writer.index@.insert(
                    token@,
                    entries_of(old(self).writer.index@, token@).insert(
                        old(self).data->0.index,
                        (count_of(old(self).writer.count@, token@) + 1) as usize,
                    ),
                ),
            *final(final(self).writer.store) == *final(old(self).writer.store),
            *final(final(self).writer.index) == *final(old(self).writer.index),
            *final(final(self).writer.count) == *final(old(self).writer.count),
    {
        let token = f();
        self.insert_term(token.inner());
    }

    /// Takes the terms of `tokens`, in their order, and leaves every token
    /// empty. Afterwards each term has, for the resource, the number of its
    /// occurrences in `tokens` as its frequency and as its count.
    pub fn insert_terms(&mut self, tokens: &mut Tokens)
        requires
            old(self).data is Some,
            old(self).writer.count@ == Map::<Seq<char>, usize>::empty(),
        ensures
            final(self).data == old(self).data,
            final(self).writer.store@ == old(self).writer.store@,
            final(self).writer.count@ == term_counts(old(tokens)@),
            final(self).writer.index@ == index_tokens(
                old(self).writer.index@,
                old(self).data->0.index,
                old(tokens)@,
            ),
            final(tokens)@ == emptied(old(tokens)@.len()),
            *final(final(self).writer.store) == *final(old(self).writer.store),
            *final(final(self).writer.index) == *final(old(self).writer.index),
            *final(final(self).writer.count) == *final(old(self).writer.count),
    {
        let mut items: Vec<Token> = Vec::new();
        core::mem::swap(&mut items, &mut tokens.0);
        let mut taken: Vec<Token> = Vec::new();
        let ghost all = texts(items@);
        let ghost doc = old(self).data->0.index;
        let total = items.len();
        proof {
            assert(all.len() == total);
            lemma_index_tokens_none(old(self).writer.index@, doc);
            assert(all.take(0) == Seq::<Seq<char>>::empty());
            assert(texts(taken@) =~= emptied(0));
        }
        for token in it: items
            invariant
                all == old(tokens)@,
                texts(it.seq()) == all,
                all.len() <= usize::MAX,
                self.data == old(self).data,
                self.data is Some,
                doc == old(self).data->0.index,
                self.writer.store@ == old(self).writer.store@,
                self.writer.count@ == term_counts(all.take(it.index() as int)),
                self.writer.index@ == index_tokens(
                    old(self).writer.index@,
                    doc,
                    all.take(it.index() as int),
                ),
                texts(taken@) == emptied(it.index() as nat),
                *final(self.writer.store) == *final(old(self).writer.store),
                *final(self.writer.index) == *final(old(self).writer.index),
                *final(self.writer.count) == *final(old(self).writer.count),
        {
            let ghost i = it.index() as int;
            proof {
                let seen = all.take(i);
                assert(all[i] == token@);
                assert(all.take(i + 1) == seen.push(token@));
                lemma_occurrences_bounds(seen, token@);
                lemma_term_counts_push(seen, token@);
                lemma_index_tokens_push(old(self).writer.index@, doc, seen, token@);
            }
            self.insert_term(token.inner());
            let blank = Token(String::new());
            proof {
                assert(texts(taken@.push(blank)) == texts(taken@).push(blank@));
                assert(emptied(i as nat).push(Seq::<char>::empty()) =~= emptied((i + 1) as nat));
            }
            taken.push(blank);
        }
        assert(all.take(all.len() as int) == all);
        tokens.0 = taken;
    }

    /// Ends the insertion: the term counter is reset.
    pub fn reset_counter(&mut self)
        ensures
            final(self).data == old(self).data,
            final(self).writer.count@ == Map::<Seq<char>, usize>::empty(),
            final(self).writer.store@ == old(self).writer.store@,
            final(self).writer.index@ == old(self).writer.index@,
            *final(final(self).writer.store) == *final(old(self).writer.store),
            *final(final(self).writer.index) == *final(old(self).writer.index),
            *final(final(self).writer.count) == *final(old(self).writer.count),
    {
        self.writer.reset_count()
    }
}

} // verus!
